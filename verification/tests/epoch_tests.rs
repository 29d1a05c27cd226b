use user_data_importer::epoch::{epoch_from_comparators, Epoch, EpochParseError, ReqComparator,
    ReqOp};
use user_data_importer::digits::IntParseError;

fn new_major(major: u64) -> Epoch {
    Epoch::Major(major)
}

fn new_minor(minor: u64) -> Epoch {
    Epoch::Minor(minor)
}

#[test]
fn epoch_from_str() {
    assert_eq!(Epoch::from_str("v1"), Ok(new_major(1)));
    assert_eq!(Epoch::from_str("v2"), Ok(new_major(2)));
    assert_eq!(Epoch::from_str("v0_3"), Ok(new_minor(3)));
    assert_eq!(Epoch::from_str("0_1"), Err(EpochParseError::BadFormat));
    assert_eq!(Epoch::from_str("v1_9"), Err(EpochParseError::BadVersion));
    assert_eq!(Epoch::from_str("v0_0"), Err(EpochParseError::BadVersion));
    assert_eq!(Epoch::from_str("v0_1_2"), Err(EpochParseError::BadVersion));
    assert_eq!(Epoch::from_str("v0_0_0_0"), Err(EpochParseError::BadFormat));
    assert_eq!(Epoch::from_str("v0_0_0"), Ok(Epoch::Patch(0)));
    assert_eq!(Epoch::from_str("v0_0_1"), Ok(Epoch::Patch(1)));
    assert_eq!(Epoch::from_str("v0_0_2"), Ok(Epoch::Patch(2)));
    assert_eq!(Epoch::from_str("v1_0"), Err(EpochParseError::BadVersion));
    assert_eq!(Epoch::from_str("v0_1_0"), Err(EpochParseError::BadVersion));
    assert!(matches!(Epoch::from_str("v1_0foo"), Err(EpochParseError::InvalidInt(_))));
    assert!(matches!(Epoch::from_str("vx_1"), Err(EpochParseError::InvalidInt(_))));
}

#[test]
fn epoch_to_string() {
    assert_eq!(new_major(1).to_string(), "v1");
    assert_eq!(new_major(2).to_string(), "v2");
    assert_eq!(new_minor(3).to_string(), "v0_3");
    assert_eq!(Epoch::Patch(5).to_string(), "v0_0_5");
}

#[test]
fn epoch_from_version() {
    assert_eq!(Epoch::from_version(&semver::Version::new(0, 0, 0)), Epoch::Patch(0));
    assert_eq!(Epoch::from_version(&semver::Version::new(0, 0, 1)), Epoch::Patch(1));
    assert_eq!(Epoch::from_version(&semver::Version::new(0, 1, 2)), new_minor(1));
    assert_eq!(Epoch::from_version(&semver::Version::new(1, 2, 0)), new_major(1));
}

#[test]
fn epoch_from_version_req_string() {
    assert_eq!(Epoch::from_version_req_str("0.0.0"), Epoch::Patch(0));
    assert_eq!(Epoch::from_version_req_str("0.0.1"), Epoch::Patch(1));
    assert_eq!(Epoch::from_version_req_str("0.1.0"), new_minor(1));
    assert_eq!(Epoch::from_version_req_str("1.0.0"), new_major(1));
    assert_eq!(Epoch::from_version_req_str("2.3.0"), new_major(2));
}

#[test]
fn epoch_version_strings() {
    assert_eq!(new_major(1).to_version_string(), "1");
    assert_eq!(new_major(18).to_version_string(), "18");
    assert_eq!(new_minor(3).to_version_string(), "0.3");
    assert_eq!(Epoch::Patch(5).to_version_string(), "0.0.5");
    assert_eq!(Epoch::Patch(0).to_version_string(), "0.0.0");
    assert_eq!(new_major(12345678901234567890).to_version_string(), "12345678901234567890");
}

#[test]
fn epoch_to_version_req_text() {
    assert_eq!(new_major(1).to_version_req().to_string(), "^1");
    assert_eq!(new_minor(17).to_version_req().to_string(), "^0.17");
    assert_eq!(Epoch::Patch(5).to_version_req().to_string(), "^0.0.5");
}

#[test]
fn epoch_try_from_version_req() {
    assert_eq!(Epoch::try_from_version_req_str("1.2.3"), Some(new_major(1)));
    assert_eq!(Epoch::try_from_version_req_str("0.2"), Some(new_minor(2)));
    // Not a version requirement at all.
    assert_eq!(Epoch::try_from_version_req_str("not a req"), None);
    // More than one comparator.
    assert_eq!(Epoch::try_from_version_req_str(">=1.0, <2.0"), None);
    // Not the default (caret) strategy.
    assert_eq!(Epoch::try_from_version_req_str("=1.2.3"), None);
    // A bare zero names no epoch.
    assert_eq!(Epoch::try_from_version_req_str("0"), None);
}

#[test]
fn epoch_from_str_overflow_and_empty() {
    assert_eq!(
        Epoch::from_str("v99999999999999999999"),
        Err(EpochParseError::InvalidInt(IntParseError::Overflow))
    );
    assert_eq!(Epoch::from_str("v"), Err(EpochParseError::InvalidInt(IntParseError::Empty)));
    assert_eq!(Epoch::from_str("v1_"), Err(EpochParseError::InvalidInt(IntParseError::Empty)));
}

#[test]
fn epoch_from_comparators_values() {
    let comps = vec![ReqComparator { op: ReqOp::Caret, major: 0, minor: Some(0), patch: Some(7) }];
    assert_eq!(epoch_from_comparators(&comps), Some(Epoch::Patch(7)));
    let comps = vec![ReqComparator { op: ReqOp::Tilde, major: 1, minor: None, patch: None }];
    assert_eq!(epoch_from_comparators(&comps), None);
    let comps = vec![ReqComparator { op: ReqOp::Caret, major: 0, minor: None, patch: None }];
    assert_eq!(epoch_from_comparators(&comps), None);
}
