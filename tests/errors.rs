use simple_wkd::errors::{CompatErr, ServiceError, SpecialErrors};

#[test]
fn status_codes() {
    let special = |s| CompatErr::SpecialErr(s).status_code();
    assert_eq!(special(SpecialErrors::MissingPending), 404);
    assert_eq!(special(SpecialErrors::InexistingUser), 404);
    assert_eq!(special(SpecialErrors::MissingFile), 404);
    assert_eq!(special(SpecialErrors::UnallowedDomain), 401);
    assert_eq!(special(SpecialErrors::ExpiredRequest), 400);
    assert_eq!(special(SpecialErrors::MalformedEmail), 400);
    assert_eq!(special(SpecialErrors::InvalidCert), 400);
    assert_eq!(special(SpecialErrors::KeyValidityTooLong), 400);
    assert_eq!(CompatErr::Internal(ServiceError::Inaccessible).status_code(), 500);
    assert_eq!(CompatErr::Internal(ServiceError::AddingKey).status_code(), 500);
}

#[test]
fn conversions() {
    assert_eq!(
        CompatErr::from(SpecialErrors::EmailMissing),
        CompatErr::SpecialErr(SpecialErrors::EmailMissing)
    );
    assert_eq!(
        CompatErr::from(ServiceError::SendMail),
        CompatErr::Internal(ServiceError::SendMail)
    );
}
