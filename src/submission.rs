//! Staging of publication and withdrawal requests under fresh tokens.

use vstd::prelude::*;

use sequoia_openpgp::policy::StandardPolicy;
use vstd::string::StringSliceAdditionalSpecFns;

use crate::certs::{cert_parses, check_certificate};
use crate::errors::{CompatErr, SpecialErrors};
use crate::management::{
    entry_path, parse_record, store_pending_addition, store_pending_deletion, Action,
    PendingEntry,
};
use crate::settings::{Policy, Variant};
use crate::utils::{
    domain_allowed, domain_part, gen_random_token, is_email_allowed, is_token_char, key_exists,
    resolve, TOKEN_LENGTH,
};

verus! {

/// A staged request: the token mailed to the requester and the entry that
/// the pending store has to write.
#[derive(Debug)]
pub struct Submission {
    pub token: String,
    pub entry: PendingEntry,
}

/// A fresh token and an entry stored under it for `action` on `data`.
pub open spec fn staged(r: Submission, action: Action, data: Seq<char>) -> bool {
    &&& r.token@.len() == TOKEN_LENGTH
    &&& forall|i: int| 0 <= i < r.token@.len() ==> is_token_char(#[trigger] r.token@[i])
    &&& r.entry.path@ == entry_path(r.token@)
    &&& parse_record(r.entry.content@) matches Some(p) && p.action == action && p.data == data
}

/// Stages the publication of `pem`, submitted for `email`, under a fresh
/// token. The key block is not examined before it is confirmed.
pub fn submit_addition(pem: String, email: &str) -> (r: Submission)
    ensures
        staged(r, Action::Add, pem@),
{
    let token = gen_random_token();
    let entry = store_pending_addition(pem, email, token.as_str());
    Submission { token, entry }
}

/// Stages the withdrawal of the key of `email` under a fresh token, after
/// checking that a key is published for it; `published` tells whether a file
/// stands at the address's key path. No token is drawn for a request that is
/// refused.
pub fn submit_deletion(email: String, variant: Variant, published: bool) -> (r: Result<
    Submission,
    CompatErr,
>)
    ensures
        resolve(email@, variant) is None ==> r == Err::<Submission, CompatErr>(
            CompatErr::SpecialErr(SpecialErrors::MalformedEmail),
        ),
        resolve(email@, variant) is Some && !published ==> r == Err::<Submission, CompatErr>(
            CompatErr::SpecialErr(SpecialErrors::InexistingUser),
        ),
        resolve(email@, variant) is Some && published ==> (r matches Ok(s) && staged(
            s,
            Action::Delete,
            email@,
        )),
{
    match key_exists(email.as_str(), variant, published) {
        Err(e) => Err(e),
        Ok(_) => {
            let token = gen_random_token();
            let entry = store_pending_deletion(email, token.as_str());
            Ok(Submission { token, entry })
        },
    }
}


/// Checks a submitted key block before its publication is staged: it must
/// hold a certificate that passes the checks, whose address belongs to a
/// domain served here. Gives that address.
pub fn check_submission(
    pem: &str,
    policy: &StandardPolicy,
    limits: &Option<Policy>,
    allowed_domains: &Vec<String>,
) -> (r: Result<String, CompatErr>)
    ensures
        !cert_parses(pem.spec_bytes()) ==> r == Err::<String, CompatErr>(
            CompatErr::SpecialErr(SpecialErrors::MalformedCert),
        ),
        r matches Ok(email) ==> domain_allowed(allowed_domains@, domain_part(email@)),
{
    let email = match check_certificate(pem, policy, limits) {
        Ok((_, e)) => e,
        Err(e) => return Err(e),
    };
    match is_email_allowed(email.as_str(), allowed_domains) {
        Ok(()) => Ok(email),
        Err(e) => Err(e),
    }
}

} // verus!
