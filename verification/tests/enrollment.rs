use moonstone::enrollment::{EnrollType, Enrollment};

#[test]
fn test_device_enrollment() {
    let enrollment = Enrollment {
        udid: Some("ABC123".into()),
        ..Default::default()
    };
    let id = enrollment.resolve().unwrap();
    assert_eq!(id.enroll_type, EnrollType::Device);
    assert_eq!(id.id, "ABC123");
    assert!(id.parent_id.is_none());
}

#[test]
fn test_user_enrollment() {
    let enrollment = Enrollment {
        udid: Some("ABC123".into()),
        user_id: Some("user-456".into()),
        ..Default::default()
    };
    let id = enrollment.resolve().unwrap();
    assert_eq!(id.enroll_type, EnrollType::User);
    assert_eq!(id.id, "ABC123:user-456");
    assert_eq!(id.parent_id.as_deref(), Some("ABC123"));
}

#[test]
fn identity_resolution() {
    let e = Enrollment {
        enrollment_id: Some("E".into()),
        enrollment_user_id: Some("U".into()),
        udid: Some("ignored".into()),
        user_id: Some("ignored".into()),
        ..Default::default()
    };
    let id = e.resolve().unwrap();
    assert_eq!(id.enroll_type, EnrollType::UserEnrollment);
    assert_eq!(id.id, "E:U");
    assert_eq!(id.parent_id.as_deref(), Some("E"));

    let e = Enrollment {
        udid: Some("D".into()),
        user_id: Some("FFFFFFFF-FFFF-FFFF-FFFF-FFFFFFFFFFFF".into()),
        ..Default::default()
    };
    let id = e.resolve().unwrap();
    assert_eq!(id.enroll_type, EnrollType::SharedIpad);
    assert_eq!(id.id, "D:FFFFFFFF-FFFF-FFFF-FFFF-FFFFFFFFFFFF");
    assert_eq!(id.parent_id.as_deref(), Some("D"));
}

#[test]
fn identity_table_rows() {
    let e = Enrollment { enrollment_id: Some("E".into()), udid: Some("D".into()), ..Default::default() };
    let id = e.resolve().unwrap();
    assert_eq!(id.enroll_type, EnrollType::UserEnrollmentDevice);
    assert_eq!(id.id, "E");
    assert!(id.parent_id.is_none());

    // a user identifier without a device identifies nothing
    let e = Enrollment { user_id: Some("U".into()), ..Default::default() };
    assert!(e.resolve().is_none());
    let e = Enrollment { enrollment_user_id: Some("U".into()), ..Default::default() };
    assert!(e.resolve().is_none());
    assert!(Enrollment::default().resolve().is_none());

    // the shared iPad identifier is compared exactly
    let e = Enrollment {
        udid: Some("D".into()),
        user_id: Some("ffffffff-ffff-ffff-ffff-ffffffffffff".into()),
        ..Default::default()
    };
    assert_eq!(e.resolve().unwrap().enroll_type, EnrollType::User);
    // resolution is a function of the fields
    assert_eq!(e.resolve(), e.clone().resolve());
}
