//! Certificate checks: sequoia-openpgp parses and validates, the library
//! decides on subkeys and validity periods.

use vstd::prelude::*;
use vstd::string::StringSliceAdditionalSpecFns;

use sequoia_openpgp::cert::amalgamation::ValidateAmalgamation;
use sequoia_openpgp::cert::ValidCert;
use sequoia_openpgp::parse::Parse;
use sequoia_openpgp::policy::StandardPolicy;
use sequoia_openpgp::Cert;

use crate::errors::{CompatErr, SpecialErrors};
use crate::settings::Policy;

verus! {

#[verifier::external_type_specification]
#[verifier::external_body]
pub struct ExCert(Cert);

#[verifier::external_type_specification]
#[verifier::external_body]
pub struct ExValidCert<'a>(ValidCert<'a>);

#[verifier::external_type_specification]
#[verifier::external_body]
pub struct ExStandardPolicy<'a>(StandardPolicy<'a>);

#[verifier::external_type_specification]
#[verifier::external_body]
pub struct ExAnyhowError(anyhow::Error);

/// Whether a key block holds exactly one OpenPGP certificate.
pub uninterp spec fn cert_parses(bytes: Seq<u8>) -> bool;

/// The validity periods of the keys of a checked certificate.
pub uninterp spec fn validity_periods_of(cert: ValidCert) -> Seq<Option<(u64, u32)>>;

/// The address in the primary user id of a checked certificate: `None`
/// when the primary user id cannot be found or read, `Some(None)` when it
/// holds no address.
pub uninterp spec fn userid_email_of(cert: ValidCert) -> Option<Option<Seq<char>>>;

/// Relies on `Cert::from_bytes`: the certificate in an armored or binary
/// key block, or the parser's error; which of the two depends on the bytes
/// alone.
#[verifier::external_body]
fn cert_from_bytes(bytes: &[u8]) -> (r: Result<Cert, anyhow::Error>)
    ensures
        r is Ok <==> cert_parses(bytes@),
{
    Cert::from_bytes(bytes)
}

/// Relies on `Cert::with_policy` at the current time: the certificate as
/// valid under `policy`, or why its primary key is not.
#[verifier::external_body]
fn cert_with_policy<'a>(cert: &'a Cert, policy: &'a StandardPolicy<'a>) -> (r: Result<
    ValidCert<'a>,
    anyhow::Error,
>) {
    cert.with_policy(policy, None)
}

/// Relies on `Cert::keys`, `KeyAmalgamationIter::subkeys` and
/// `SubordinateKeyAmalgamation::with_policy` at the current time: for each
/// subkey, whether it is valid under `policy`.
#[verifier::external_body]
fn subkeys_with_policy(cert: &Cert, policy: &StandardPolicy) -> (r: Vec<bool>) {
    cert.keys().subkeys().map(|k| k.with_policy(policy, None).is_ok()).collect()
}

/// Relies on `ValidCert::keys` and `ValidKeyAmalgamation::key_validity_period`:
/// the validity period of each key as seconds and nanoseconds, `None` for a
/// key that never expires.
#[verifier::external_body]
fn key_validity_periods(cert: &ValidCert) -> (r: Vec<Option<(u64, u32)>>)
    ensures
        r@ == validity_periods_of(*cert),
{
    cert.keys().map(|k| k.key_validity_period().map(|d| (d.as_secs(), d.subsec_nanos()))).collect()
}

/// Relies on `ValidCert::primary_userid`, which uses the policy and time
/// the certificate was checked with, and `UserID::email2`: the address in
/// the primary user id, if it holds one.
#[verifier::external_body]
fn primary_userid_email(cert: &ValidCert) -> (r: Result<Option<String>, anyhow::Error>)
    ensures
        r matches Ok(Some(e)) ==> userid_email_of(*cert) == Some(Some(e@)),
        r matches Ok(None) ==> userid_email_of(*cert) == Some(None::<Seq<char>>),
        r is Err ==> userid_email_of(*cert) is None,
{
    let userid = cert.primary_userid()?;
    Ok(userid.userid().email2()?.map(String::from))
}

/// Every subkey is valid under the policy.
pub open spec fn subkeys_valid(valid: Seq<bool>) -> bool {
    forall|i: int| 0 <= i < valid.len() ==> #[trigger] valid[i]
}

pub fn check_subkeys(valid: &Vec<bool>) -> (r: Result<(), SpecialErrors>)
    ensures
        subkeys_valid(valid@) ==> r is Ok,
        !subkeys_valid(valid@) ==> r == Err::<(), SpecialErrors>(SpecialErrors::KeyPolicyViolation),
{
    let mut k: usize = 0;
    while k < valid.len()
        invariant
            k <= valid@.len(),
            forall|i: int| 0 <= i < k ==> #[trigger] valid@[i],
        decreases valid@.len() - k,
    {
        if !valid[k] {
            return Err(SpecialErrors::KeyPolicyViolation);
        }
        k = k + 1;
    }
    Ok(())
}

/// A validity period longer than `max_secs` seconds.
pub open spec fn period_exceeds(p: (u64, u32), max_secs: u64) -> bool {
    p.0 > max_secs || (p.0 == max_secs && p.1 > 0)
}

/// The objection to the first key, in order, whose validity period breaks
/// a limit of `max_secs` seconds.
pub open spec fn periods_objection(periods: Seq<Option<(u64, u32)>>, max_secs: u64) -> Option<
    SpecialErrors,
>
    decreases periods.len(),
{
    if periods.len() == 0 {
        None
    } else {
        match periods[0] {
            None => Some(SpecialErrors::KeyNonExpiring),
            Some(p) => if period_exceeds(p, max_secs) {
                Some(SpecialErrors::KeyValidityTooLong)
            } else {
                periods_objection(periods.drop_first(), max_secs)
            },
        }
    }
}

/// The verdict on the validity periods of a certificate's keys: with a
/// nonzero maximum configured, every key must expire and within it.
pub open spec fn validity_verdict(periods: Seq<Option<(u64, u32)>>, limits: Option<Policy>) -> Result<
    (),
    SpecialErrors,
> {
    match limits {
        Some(Policy { key_max_validity: Some(m) }) => if m == 0 {
            Ok(())
        } else {
            match periods_objection(periods, m) {
                None => Ok(()),
                Some(e) => Err(e),
            }
        },
        _ => Ok(()),
    }
}

pub fn check_validity_periods(periods: &Vec<Option<(u64, u32)>>, limits: &Option<Policy>) -> (r:
    Result<(), SpecialErrors>)
    ensures
        r == validity_verdict(periods@, *limits),
        r matches Err(e) ==> e == SpecialErrors::KeyNonExpiring || e
            == SpecialErrors::KeyValidityTooLong,
{
    let max_secs = match limits {
        Some(Policy { key_max_validity: Some(m) }) => *m,
        _ => return Ok(()),
    };
    if max_secs == 0 {
        return Ok(());
    }
    let ghost verdict = validity_verdict(periods@, *limits);
    assert(verdict == match periods_objection(periods@, max_secs) {
        None => Ok(()),
        Some(e) => Err(e),
    });
    assert(periods@.subrange(0, periods@.len() as int) =~= periods@);
    let mut k: usize = 0;
    while k < periods.len()
        invariant
            k <= periods@.len(),
            verdict == validity_verdict(periods@, *limits),
            verdict == match periods_objection(periods@, max_secs) {
                None => Ok(()),
                Some(e) => Err(e),
            },
            periods_objection(periods@, max_secs) == periods_objection(
                periods@.subrange(k as int, periods@.len() as int),
                max_secs,
            ),
        decreases periods@.len() - k,
    {
        let ghost rest = periods@.subrange(k as int, periods@.len() as int);
        assert(rest[0] == periods@[k as int]);
        assert(rest.drop_first() =~= periods@.subrange(k + 1, periods@.len() as int));
        match periods[k] {
            None => return Err(SpecialErrors::KeyNonExpiring),
            Some(p) => {
                if p.0 > max_secs || (p.0 == max_secs && p.1 > 0) {
                    return Err(SpecialErrors::KeyValidityTooLong);
                }
            },
        }
        k = k + 1;
    }
    Ok(())
}

/// The verdict on a certificate: its primary key must be valid under the
/// policy, then each subkey, then the validity periods must keep to the
/// configured limits.
pub open spec fn cert_verdict(
    primary_valid: bool,
    subkeys: Seq<bool>,
    periods: Seq<Option<(u64, u32)>>,
    limits: Option<Policy>,
) -> Result<(), SpecialErrors> {
    if !primary_valid {
        Err(SpecialErrors::InvalidCert)
    } else if !subkeys_valid(subkeys) {
        Err(SpecialErrors::KeyPolicyViolation)
    } else {
        validity_verdict(periods, limits)
    }
}

pub fn decide_cert(
    primary_valid: bool,
    subkeys: &Vec<bool>,
    periods: &Vec<Option<(u64, u32)>>,
    limits: &Option<Policy>,
) -> (r: Result<(), SpecialErrors>)
    ensures
        r == cert_verdict(primary_valid, subkeys@, periods@, *limits),
        r matches Err(e) ==> e == SpecialErrors::InvalidCert || e
            == SpecialErrors::KeyPolicyViolation || e == SpecialErrors::KeyNonExpiring || e
            == SpecialErrors::KeyValidityTooLong,
{
    if !primary_valid {
        return Err(SpecialErrors::InvalidCert);
    }
    if let Err(e) = check_subkeys(subkeys) {
        return Err(e);
    }
    check_validity_periods(periods, limits)
}

/// Checks a certificate against the standard policy and the configured
/// limits: its primary key, each subkey, and the validity periods. Whether
/// the keys are valid under the policy at the current time is what
/// sequoia-openpgp reports; the verdict on those reports is `cert_verdict`.
pub fn validate_cert<'a>(
    cert: &'a Cert,
    policy: &'a StandardPolicy<'a>,
    limits: &Option<Policy>,
) -> (r: Result<ValidCert<'a>, CompatErr>)
    ensures
        r matches Ok(v) ==> validity_verdict(validity_periods_of(v), *limits) is Ok,
        r matches Err(e) ==> e == CompatErr::SpecialErr(SpecialErrors::InvalidCert) || e
            == CompatErr::SpecialErr(SpecialErrors::KeyPolicyViolation) || e == CompatErr::SpecialErr(
            SpecialErrors::KeyNonExpiring,
        ) || e == CompatErr::SpecialErr(SpecialErrors::KeyValidityTooLong),
{
    match cert_with_policy(cert, policy) {
        Err(_) => {
            let verdict = decide_cert(false, &Vec::new(), &Vec::new(), limits);
            match verdict {
                Err(e) => Err(CompatErr::SpecialErr(e)),
                Ok(()) => Err(CompatErr::SpecialErr(SpecialErrors::InvalidCert)),
            }
        },
        Ok(valid) => {
            let subkeys = subkeys_with_policy(cert, policy);
            let periods = key_validity_periods(&valid);
            match decide_cert(true, &subkeys, &periods, limits) {
                Err(e) => Err(CompatErr::SpecialErr(e)),
                Ok(()) => Ok(valid),
            }
        },
    }
}

/// Reads and checks a submitted key block.
pub fn parse_pem(pemfile: &str, policy: &StandardPolicy, limits: &Option<Policy>) -> (r: Result<
    Cert,
    CompatErr,
>)
    ensures
        !cert_parses(pemfile.spec_bytes()) ==> r == Err::<Cert, CompatErr>(
            CompatErr::SpecialErr(SpecialErrors::MalformedCert),
        ),
        cert_parses(pemfile.spec_bytes()) ==> (r matches Err(e) ==> e == CompatErr::SpecialErr(
            SpecialErrors::InvalidCert,
        ) || e == CompatErr::SpecialErr(SpecialErrors::KeyPolicyViolation) || e
            == CompatErr::SpecialErr(SpecialErrors::KeyNonExpiring) || e == CompatErr::SpecialErr(
            SpecialErrors::KeyValidityTooLong,
        )),
{
    let cert = match cert_from_bytes(pemfile.as_bytes()) {
        Ok(c) => c,
        Err(_) => return Err(CompatErr::SpecialErr(SpecialErrors::MalformedCert)),
    };
    if let Err(e) = validate_cert(&cert, policy, limits) {
        return Err(e);
    }
    Ok(cert)
}

/// The address of the primary user id of a checked certificate.
pub fn get_email_from_cert(cert: &ValidCert) -> (r: Result<String, CompatErr>)
    ensures
        userid_email_of(*cert) matches Some(Some(e)) ==> r matches Ok(s) && s@ == e,
        userid_email_of(*cert) == Some(None::<Seq<char>>) ==> r == Err::<String, CompatErr>(
            CompatErr::SpecialErr(SpecialErrors::EmailMissing),
        ),
        userid_email_of(*cert) is None ==> r == Err::<String, CompatErr>(
            CompatErr::Internal(crate::errors::ServiceError::ParseCert),
        ),
{
    match primary_userid_email(cert) {
        Ok(Some(email)) => Ok(email),
        Ok(None) => Err(CompatErr::SpecialErr(SpecialErrors::EmailMissing)),
        Err(_) => Err(CompatErr::Internal(crate::errors::ServiceError::ParseCert)),
    }
}

/// Reads and checks a submitted key block and finds its address: the
/// certificate check of a confirmation and of a submission.
pub fn check_certificate(pemfile: &str, policy: &StandardPolicy, limits: &Option<Policy>) -> (r:
    Result<(Cert, String), CompatErr>)
    ensures
        !cert_parses(pemfile.spec_bytes()) ==> r == Err::<(Cert, String), CompatErr>(
            CompatErr::SpecialErr(SpecialErrors::MalformedCert),
        ),
        r matches Err(e) ==> e is SpecialErr || e == CompatErr::Internal(
            crate::errors::ServiceError::ParseCert,
        ),
{
    let cert = match cert_from_bytes(pemfile.as_bytes()) {
        Ok(c) => c,
        Err(_) => return Err(CompatErr::SpecialErr(SpecialErrors::MalformedCert)),
    };
    let email = match validate_cert(&cert, policy, limits) {
        Err(e) => return Err(e),
        Ok(valid) => get_email_from_cert(&valid),
    };
    match email {
        Ok(e) => Ok((cert, e)),
        Err(e) => Err(e),
    }
}

} // verus!
