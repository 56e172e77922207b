use license_checker::license::{ErrorCode, Identity, IssueLicense, RenewLicense, UpdateStatus};
use license_checker::registry::LicenseRegistry;

fn ids() -> (Identity, Identity) {
    (Identity { key: 1 }, Identity { key: 2 })
}

#[test]
fn duplicate_issue_fails_and_preserves_first_record() {
    let (user, authority) = ids();
    let ctx = IssueLicense { user, authority };
    let mut reg = LicenseRegistry::new();

    let first = reg.issue(&ctx, 7, 3600, 1_000).unwrap();
    assert_eq!(first.expiration_timestamp, 4_600);

    let second = reg.issue(&ctx, 7, 9_999, 2_000);
    assert_eq!(second, Err(ErrorCode::DuplicateLicense));

    assert_eq!(reg.licenses.len(), 1);
    assert_eq!(reg.licenses[0], first);
}

#[test]
fn same_owner_holds_independent_licenses_per_product() {
    let (user, authority) = ids();
    let ctx = IssueLicense { user, authority };
    let mut reg = LicenseRegistry::new();

    reg.issue(&ctx, 7, 3600, 1_000).unwrap();
    reg.issue(&ctx, 8, 60, 1_000).unwrap();
    assert_eq!(reg.licenses.len(), 2);

    let l7 = reg.find_license(user, 7).unwrap();
    let l8 = reg.find_license(user, 8).unwrap();
    assert_eq!(l7.expiration_timestamp, 4_600);
    assert_eq!(l8.expiration_timestamp, 1_060);
}

#[test]
fn addressing_ignores_authority() {
    // two records, same product, different owners and different authorities
    let mut reg = LicenseRegistry::new();
    let ctx_a = IssueLicense { user: Identity { key: 1 }, authority: Identity { key: 10 } };
    let ctx_b = IssueLicense { user: Identity { key: 2 }, authority: Identity { key: 20 } };
    reg.issue(&ctx_a, 7, 100, 0).unwrap();
    reg.issue(&ctx_b, 7, 200, 0).unwrap();
    assert_eq!(reg.licenses.len(), 2);
    let a = reg.find_license(Identity { key: 1 }, 7).unwrap();
    let b = reg.find_license(Identity { key: 2 }, 7).unwrap();
    assert_eq!(a.authority, Identity { key: 10 });
    assert_eq!(b.authority, Identity { key: 20 });
}

#[test]
fn find_license_misses_unknown_address() {
    let (user, authority) = ids();
    let ctx = IssueLicense { user, authority };
    let mut reg = LicenseRegistry::new();
    reg.issue(&ctx, 7, 3600, 1_000).unwrap();
    assert_eq!(reg.find_license(user, 8), None);
    assert_eq!(reg.find_license(Identity { key: 9 }, 7), None);
}

#[test]
fn registry_renew_requires_matching_authority() {
    let (user, authority) = ids();
    let ctx = IssueLicense { user, authority };
    let mut reg = LicenseRegistry::new();
    let first = reg.issue(&ctx, 7, 3600, 1_000).unwrap();

    let stranger = RenewLicense { authority: Identity { key: 99 } };
    let r = reg.renew(&stranger, user, 7, 3600, 5_000);
    assert_eq!(r, Err(ErrorCode::UnauthorizedAuthority));
    assert_eq!(reg.licenses[0], first);

    let rctx = RenewLicense { authority };
    reg.renew(&rctx, user, 7, 3600, 5_000).unwrap();
    assert_eq!(reg.licenses[0].expiration_timestamp, 8_600);
    assert_eq!(reg.licenses[0].purchase_timestamp, 5_000);
    assert!(reg.licenses[0].is_active);
}

#[test]
fn registry_set_status_requires_matching_authority() {
    let (user, authority) = ids();
    let ctx = IssueLicense { user, authority };
    let mut reg = LicenseRegistry::new();
    let first = reg.issue(&ctx, 7, 3600, 1_000).unwrap();

    let stranger = UpdateStatus { authority: Identity { key: 99 } };
    let r = reg.set_status(&stranger, user, 7, false);
    assert_eq!(r, Err(ErrorCode::UnauthorizedAuthority));
    assert_eq!(reg.licenses[0], first);

    let sctx = UpdateStatus { authority };
    reg.set_status(&sctx, user, 7, false).unwrap();
    assert!(!reg.licenses[0].is_active);
    assert_eq!(reg.licenses[0].purchase_timestamp, first.purchase_timestamp);
    assert_eq!(reg.licenses[0].expiration_timestamp, first.expiration_timestamp);
}

#[test]
fn registry_touches_only_the_addressed_record() {
    let (user, authority) = ids();
    let other = Identity { key: 5 };
    let mut reg = LicenseRegistry::new();
    reg.issue(&IssueLicense { user, authority }, 7, 3600, 1_000).unwrap();
    let untouched = reg
        .issue(&IssueLicense { user: other, authority }, 7, 60, 1_000)
        .unwrap();

    let rctx = RenewLicense { authority };
    reg.renew(&rctx, user, 7, 1_000, 2_000).unwrap();
    let sctx = UpdateStatus { authority };
    reg.set_status(&sctx, user, 7, false).unwrap();

    assert_eq!(reg.find_license(other, 7), Some(untouched));
}
