use sequoia_openpgp::cert::CertBuilder;
use sequoia_openpgp::policy::StandardPolicy;
use sequoia_openpgp::serialize::SerializeInto;
use simple_wkd::certs::{
    check_certificate, check_subkeys, check_validity_periods, decide_cert, parse_pem,
    validate_cert,
};
use simple_wkd::submission::check_submission;
use simple_wkd::errors::{CompatErr, SpecialErrors};
use simple_wkd::settings::Policy;

fn armored_key(userid: Option<&str>) -> String {
    let (cert, _) = CertBuilder::general_purpose(None, userid).generate().unwrap();
    let bytes = cert.armored().to_vec().unwrap();
    String::from_utf8(bytes).unwrap()
}

#[test]
fn subkey_verdicts() {
    assert_eq!(check_subkeys(&vec![]), Ok(()));
    assert_eq!(check_subkeys(&vec![true, true]), Ok(()));
    assert_eq!(check_subkeys(&vec![true, false]), Err(SpecialErrors::KeyPolicyViolation));
}

#[test]
fn validity_verdicts() {
    let limit = |m| Some(Policy { key_max_validity: Some(m) });
    let periods = vec![Some((100, 0)), None];
    assert_eq!(check_validity_periods(&periods, &None), Ok(()));
    assert_eq!(check_validity_periods(&periods, &Some(Policy { key_max_validity: None })), Ok(()));
    assert_eq!(check_validity_periods(&periods, &limit(0)), Ok(()));
    assert_eq!(check_validity_periods(&periods, &limit(200)), Err(SpecialErrors::KeyNonExpiring));
    assert_eq!(check_validity_periods(&vec![Some((100, 1))], &limit(100)), Err(SpecialErrors::KeyValidityTooLong));
    assert_eq!(check_validity_periods(&vec![Some((100, 0))], &limit(100)), Ok(()));
    assert_eq!(
        check_validity_periods(&vec![Some((300, 0)), None], &limit(200)),
        Err(SpecialErrors::KeyValidityTooLong)
    );
}

#[test]
fn garbage_is_a_malformed_certificate() {
    let policy = StandardPolicy::new();
    assert_eq!(
        parse_pem("this is no key", &policy, &None).unwrap_err(),
        CompatErr::SpecialErr(SpecialErrors::MalformedCert)
    );
}

#[test]
fn a_generated_key_is_accepted_with_its_address() {
    let policy = StandardPolicy::new();
    let pem = armored_key(Some("Alice <alice@example.org>"));
    let (_, email) = check_certificate(&pem, &policy, &None).unwrap();
    assert_eq!(email, "alice@example.org");
}

#[test]
fn a_key_without_address_is_refused() {
    let policy = StandardPolicy::new();
    let pem = armored_key(None);
    let err = check_certificate(&pem, &policy, &None).unwrap_err();
    assert!(matches!(err, CompatErr::SpecialErr(SpecialErrors::EmailMissing)) || matches!(err, CompatErr::Internal(_)));
}

#[test]
fn validity_limit_applies_to_generated_keys() {
    let policy = StandardPolicy::new();
    let pem = armored_key(Some("bob@example.org"));
    let limits = Some(Policy { key_max_validity: Some(60) });
    assert_eq!(
        parse_pem(&pem, &policy, &limits).unwrap_err(),
        CompatErr::SpecialErr(SpecialErrors::KeyValidityTooLong)
    );
}

#[test]
fn certificate_verdicts() {
    let limit = Some(Policy { key_max_validity: Some(100) });
    let ok = vec![Some((50, 0))];
    assert_eq!(decide_cert(false, &vec![false], &vec![None], &limit), Err(SpecialErrors::InvalidCert));
    assert_eq!(decide_cert(true, &vec![true, false], &vec![None], &limit), Err(SpecialErrors::KeyPolicyViolation));
    assert_eq!(decide_cert(true, &vec![true], &vec![None], &limit), Err(SpecialErrors::KeyNonExpiring));
    assert_eq!(decide_cert(true, &vec![true], &ok, &limit), Ok(()));
    assert_eq!(decide_cert(true, &vec![], &vec![None], &None), Ok(()));
}

#[test]
fn a_generated_key_passes_validation() {
    let policy = StandardPolicy::new();
    let pem = armored_key(Some("carol@example.org"));
    let cert = parse_pem(&pem, &policy, &None).unwrap();
    assert!(validate_cert(&cert, &policy, &None).is_ok());
}

#[test]
fn submission_checks() {
    let policy = StandardPolicy::new();
    let pem = armored_key(Some("Dave <dave@example.org>"));
    let served = vec!["example.org".to_string()];
    assert_eq!(check_submission(&pem, &policy, &None, &served).unwrap(), "dave@example.org");
    assert_eq!(
        check_submission(&pem, &policy, &None, &vec!["example.net".to_string()]).unwrap_err(),
        CompatErr::SpecialErr(SpecialErrors::UnallowedDomain)
    );
    assert_eq!(
        check_submission("garbage", &policy, &None, &served).unwrap_err(),
        CompatErr::SpecialErr(SpecialErrors::MalformedCert)
    );
}
