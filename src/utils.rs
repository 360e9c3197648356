//! Where a key is published: the Web Key Directory path of an address,
//! the checks on addresses, and tokens.

use vstd::prelude::*;
use vstd::string::*;
use vstd::utf8::encode_utf8;

use rand::distributions::Alphanumeric;
use rand::Rng;
use sequoia_openpgp::crypto::hash::Digest;
use sequoia_openpgp::types::HashAlgorithm;

use crate::errors::{CompatErr, SpecialErrors};
use crate::record::{find, lemma_find};
use crate::settings::{Variant, ROOT_FOLDER};

verus! {

/// The SHA-1 digest of a byte string.
pub uninterp spec fn sha1_of(data: Seq<u8>) -> Seq<u8>;

/// The z-base-32 text of a byte string.
pub uninterp spec fn zbase32_of(data: Seq<u8>) -> Seq<char>;

/// Relies on sequoia-openpgp's SHA-1 context (`HashAlgorithm::context`,
/// `Digest::update`, `Digest::digest`): a digest of `digest_size()`, that is
/// 20, bytes that depends on `data` alone.
#[verifier::external_body]
fn sha1_digest(data: &[u8]) -> (r: Vec<u8>)
    ensures
        r@ == sha1_of(data@),
        r@.len() == 20,
{
    let mut ctx = HashAlgorithm::SHA1.context().unwrap();
    ctx.update(data);
    let mut digest = vec![0; ctx.digest_size()];
    let _ = ctx.digest(&mut digest);
    digest
}

/// The 32 characters of z-base-32, in the order of the values they stand for.
pub open spec fn zbase32_alphabet() -> Seq<char> {
    seq![
        'y', 'b', 'n', 'd', 'r', 'f', 'g', '8', 'e', 'j', 'k', 'm', 'c', 'p', 'q', 'x',
        'o', 't', '1', 'u', 'w', 'i', 's', 'z', 'a', '3', '4', '5', 'h', '7', '6', '9',
    ]
}

pub open spec fn is_zbase32_text(s: Seq<char>) -> bool {
    forall|i: int| 0 <= i < s.len() ==> zbase32_alphabet().contains(#[trigger] s[i])
}

/// Relies on `zbase32::encode_full_bytes`: one character of the z-base-32
/// alphabet for each five bits of `data`, the last one padded.
#[verifier::external_body]
fn zbase32_encode(data: &[u8]) -> (r: String)
    requires
        data@.len() * 8 <= u64::MAX,
    ensures
        r@ == zbase32_of(data@),
        r@.len() == (data@.len() * 8 + 4) / 5,
        is_zbase32_text(r@),
{
    zbase32::encode_full_bytes(data)
}

/// The lower-case form of a text.
pub uninterp spec fn lower_of(s: Seq<char>) -> Seq<char>;

/// Relies on `str::to_lowercase`: the lower-case form of each character,
/// which depends on the characters alone.
#[verifier::external_body]
fn lowercase(s: &str) -> (r: String)
    ensures
        r@ == lower_of(s@),
{
    s.to_lowercase()
}

/// The directory name of a local part: z-base-32 of the SHA-1 digest of its
/// UTF-8 bytes.
pub open spec fn local_code(local: Seq<char>) -> Seq<char> {
    zbase32_of(sha1_of(encode_utf8(local)))
}

pub fn encode_local(local: &str) -> (r: String)
    ensures
        r@ == local_code(local@),
        r@.len() == 32,
        is_zbase32_text(r@),
{
    let digest = sha1_digest(local.as_bytes());
    zbase32_encode(digest.as_slice())
}

/// The local part and the domain of an address with exactly one `@`.
pub open spec fn split_address(email: Seq<char>) -> Option<(Seq<char>, Seq<char>)> {
    match find(email, '@') {
        None => None,
        Some(i) => {
            let domain = email.subrange(i + 1, email.len() as int);
            if find(domain, '@') is None {
                Some((email.subrange(0, i), domain))
            } else {
                None
            }
        },
    }
}

/// The folder that holds the published keys and policies.
pub open spec fn wkd_dir() -> Seq<char> {
    ROOT_FOLDER@ + "/.well-known/openpgpkey/"@
}

/// Where the key of `local@domain` is published; domains are told apart
/// without regard to case.
pub open spec fn key_path(local: Seq<char>, domain: Seq<char>, variant: Variant) -> Seq<char> {
    match variant {
        Variant::Advanced => wkd_dir() + lower_of(domain) + "/hu/"@ + local_code(local),
        Variant::Direct => wkd_dir() + "hu/"@ + local_code(local),
    }
}

/// Where the policy file that goes with the keys of `domain` is published.
pub open spec fn policy_path(domain: Seq<char>, variant: Variant) -> Seq<char> {
    match variant {
        Variant::Advanced => wkd_dir() + lower_of(domain) + "/policy"@,
        Variant::Direct => wkd_dir() + "policy"@,
    }
}

/// The key path of an address; `None` unless it holds exactly one `@`.
pub open spec fn resolve(email: Seq<char>, variant: Variant) -> Option<Seq<char>> {
    match split_address(email) {
        Some((local, domain)) => Some(key_path(local, domain, variant)),
        None => None,
    }
}

/// Splits an address at its only `@`.
fn split_at_sign(email: &str) -> (r: Option<(&str, &str)>)
    ensures
        split_address(email@) matches Some((l, d)) ==> r matches Some((a, b)) && a@ == l && b@
            == d,
        split_address(email@) is None ==> r is None,
{
    let ghost s = email@;
    let n = email.unicode_len();
    let mut i: usize = 0;
    while i < n && email.get_char(i) != '@'
        invariant
            i <= n,
            n == s.len(),
            s == email@,
            forall|k: int| 0 <= k < i ==> s[k] != '@',
        decreases n - i,
    {
        i = i + 1;
    }
    proof {
        lemma_find(s, '@', i as int);
    }
    if i == n {
        return None;
    }
    let ghost domain = s.subrange(i + 1, n as int);
    let mut j: usize = i + 1;
    while j < n && email.get_char(j) != '@'
        invariant
            i < j <= n,
            n == s.len(),
            s == email@,
            domain == s.subrange(i + 1, n as int),
            forall|k: int| 0 <= k < j - (i + 1) ==> domain[k] != '@',
        decreases n - j,
    {
        assert(domain[j - (i + 1)] == s[j as int]);
        j = j + 1;
    }
    proof {
        if j < n {
            assert(domain[j - (i + 1)] == s[j as int]);
        }
        lemma_find(domain, '@', j - (i + 1));
    }
    if j < n {
        return None;
    }
    Some((email.substring_char(0, i), email.substring_char(i + 1, n)))
}

/// The path, under the root folder, where the key of `email` is published.
pub fn email_to_file_path(email: &str, variant: Variant) -> (r: Result<String, CompatErr>)
    ensures
        resolve(email@, variant) matches Some(p) ==> r matches Ok(s) && s@ == p,
        resolve(email@, variant) is None ==> r == Err::<String, CompatErr>(
            CompatErr::SpecialErr(SpecialErrors::MalformedEmail),
        ),
{
    match split_at_sign(email) {
        None => Err(CompatErr::SpecialErr(SpecialErrors::MalformedEmail)),
        Some((local, domain)) => {
            let local_encoded = encode_local(local);
            let mut path = String::from_str(ROOT_FOLDER);
            path.append("/.well-known/openpgpkey/");
            match variant {
                Variant::Advanced => {
                    let domain = lowercase(domain);
                    path.append(domain.as_str());
                    path.append("/hu/");
                },
                Variant::Direct => {
                    path.append("hu/");
                },
            }
            path.append(local_encoded.as_str());
            Ok(path)
        },
    }
}

/// The path of the policy file that is published beside the key of `email`.
pub fn policy_file_path(email: &str, variant: Variant) -> (r: Result<String, CompatErr>)
    ensures
        split_address(email@) matches Some((l, d)) ==> r matches Ok(s) && s@ == policy_path(
            d,
            variant,
        ),
        split_address(email@) is None ==> r == Err::<String, CompatErr>(
            CompatErr::SpecialErr(SpecialErrors::MalformedEmail),
        ),
{
    match split_at_sign(email) {
        None => Err(CompatErr::SpecialErr(SpecialErrors::MalformedEmail)),
        Some((_local, domain)) => {
            let mut path = String::from_str(ROOT_FOLDER);
            path.append("/.well-known/openpgpkey/");
            match variant {
                Variant::Advanced => {
                    let domain = lowercase(domain);
                    path.append(domain.as_str());
                    path.append("/policy");
                },
                Variant::Direct => {
                    path.append("policy");
                },
            }
            Ok(path)
        },
    }
}


/// Key paths are a function of the address and the variant, and two
/// addresses share a key path only if their local parts encode alike and,
/// in the `Advanced` layout, their domains are equal up to case. The `Advanced` half is
/// stated for codes of one length, as every code that `encode_local`
/// returns has 32 characters.
pub proof fn lemma_resolve_injective(e1: Seq<char>, e2: Seq<char>, variant: Variant)
    requires
        resolve(e1, variant) is Some,
        resolve(e1, variant) == resolve(e2, variant),
    ensures
        split_address(e1) matches Some((l1, d1)) && split_address(e2) matches Some((l2, d2)) && {
            &&& variant == Variant::Direct ==> local_code(l1) == local_code(l2)
            &&& variant == Variant::Advanced && local_code(l1).len() == local_code(l2).len()
                ==> lower_of(d1) == lower_of(d2) && local_code(l1) == local_code(l2)
        },
{
    let (l1, d1) = split_address(e1)->0;
    let (l2, d2) = split_address(e2)->0;
    let c1 = local_code(l1);
    let c2 = local_code(l2);
    let p = key_path(l1, d1, variant);
    match variant {
        Variant::Advanced => {
            if c1.len() == c2.len() {
                let pre1 = wkd_dir() + lower_of(d1) + "/hu/"@;
                let pre2 = wkd_dir() + lower_of(d2) + "/hu/"@;
                assert(p == pre1 + c1);
                assert(p == pre2 + c2);
                assert(pre1.len() == pre2.len());
                assert(c1 =~= p.subrange(pre1.len() as int, p.len() as int));
                assert(c2 =~= p.subrange(pre2.len() as int, p.len() as int));
                let (u1, u2) = (lower_of(d1), lower_of(d2));
                assert(u1.len() == u2.len());
                let w = wkd_dir().len() as int;
                assert(u1 =~= p.subrange(w, w + u1.len()));
                assert(u2 =~= p.subrange(w, w + u2.len()));
            }
        },
        Variant::Direct => {
            let pre = wkd_dir() + "hu/"@;
            assert(p == pre + c1);
            assert(p == pre + c2);
            assert(c1 =~= p.subrange(pre.len() as int, p.len() as int));
            assert(c2 =~= p.subrange(pre.len() as int, p.len() as int));
        },
    }
}

/// The position of the last `c` in `s`.
pub open spec fn rfind(s: Seq<char>, c: char) -> Option<int>
    decreases s.len(),
{
    if s.len() == 0 {
        None
    } else if s.last() == c {
        Some(s.len() - 1)
    } else {
        rfind(s.drop_last(), c)
    }
}

/// What follows the last `@` of an address, or all of it when it has none.
pub open spec fn domain_part(email: Seq<char>) -> Seq<char> {
    match rfind(email, '@') {
        Some(i) => email.subrange(i + 1, email.len() as int),
        None => email,
    }
}

proof fn lemma_rfind(s: Seq<char>, c: char, i: int)
    requires
        0 <= i <= s.len(),
        forall|k: int| i <= k < s.len() ==> s[k] != c,
    ensures
        i > 0 && s[i - 1] == c ==> rfind(s, c) == Some(i - 1),
        i == 0 ==> rfind(s, c) is None,
    decreases s.len() - i,
{
    if i < s.len() {
        let t = s.drop_last();
        assert forall|k: int| i <= k < t.len() implies t[k] != c by {
            assert(t[k] == s[k]);
        }
        lemma_rfind(t, c, i);
        if i > 0 {
            assert(t[i - 1] == s[i - 1]);
        }
    }
}

/// The domain of an address: what follows its last `@`.
pub fn extract_domain(email: &str) -> (r: Result<String, CompatErr>)
    ensures
        r matches Ok(d) && d@ == domain_part(email@),
{
    let ghost s = email@;
    let n = email.unicode_len();
    let mut i: usize = n;
    while i > 0 && email.get_char(i - 1) != '@'
        invariant
            i <= n,
            n == s.len(),
            s == email@,
            forall|k: int| i <= k < s.len() ==> s[k] != '@',
        decreases i,
    {
        i = i - 1;
    }
    proof {
        lemma_rfind(s, '@', i as int);
    }
    if i == 0 {
        Ok(String::from_str(email))
    } else {
        Ok(String::from_str(email.substring_char(i, n)))
    }
}

/// Whether `domain` is one of `allowed`, without regard to case.
pub open spec fn domain_allowed(allowed: Seq<String>, domain: Seq<char>) -> bool {
    exists|k: int| 0 <= k < allowed.len() && lower_of((#[trigger] allowed[k])@) == lower_of(domain)
}

/// Accepts an address whose domain is served here.
pub fn is_email_allowed(email: &str, allowed_domains: &Vec<String>) -> (r: Result<(), CompatErr>)
    ensures
        domain_allowed(allowed_domains@, domain_part(email@)) ==> r is Ok,
        !domain_allowed(allowed_domains@, domain_part(email@)) ==> r == Err::<(), CompatErr>(
            CompatErr::SpecialErr(SpecialErrors::UnallowedDomain),
        ),
{
    let domain = match extract_domain(email) {
        Ok(d) => lowercase(d.as_str()),
        Err(e) => return Err(e),
    };
    let mut k: usize = 0;
    while k < allowed_domains.len()
        invariant
            k <= allowed_domains@.len(),
            domain@ == lower_of(domain_part(email@)),
            forall|m: int|
                0 <= m < k ==> lower_of((#[trigger] allowed_domains@[m])@) != domain@,
        decreases allowed_domains@.len() - k,
    {
        let candidate = lowercase(allowed_domains[k].as_str());
        if candidate == domain {
            return Ok(());
        }
        k = k + 1;
    }
    Err(CompatErr::SpecialErr(SpecialErrors::UnallowedDomain))
}

/// Accepts an address that has a key published; `published` tells whether
/// a file stands at the address's key path.
pub fn key_exists(email: &str, variant: Variant, published: bool) -> (r: Result<bool, CompatErr>)
    ensures
        resolve(email@, variant) is None ==> r == Err::<bool, CompatErr>(
            CompatErr::SpecialErr(SpecialErrors::MalformedEmail),
        ),
        resolve(email@, variant) is Some && published ==> r == Ok::<bool, CompatErr>(true),
        resolve(email@, variant) is Some && !published ==> r == Err::<bool, CompatErr>(
            CompatErr::SpecialErr(SpecialErrors::InexistingUser),
        ),
{
    match email_to_file_path(email, variant) {
        Err(e) => Err(e),
        Ok(_) => {
            if published {
                Ok(true)
            } else {
                Err(CompatErr::SpecialErr(SpecialErrors::InexistingUser))
            }
        },
    }
}

/// The folder of the static web pages and page templates.
pub fn webpage_path() -> (r: String)
    ensures
        r@ == "assets/webpage"@,
{
    String::from_str("assets/webpage")
}

/// The number of characters of a token.
pub const TOKEN_LENGTH: usize = 10;

/// An ASCII letter or digit.
pub open spec fn is_token_char(c: char) -> bool {
    let v = c as u32;
    (48 <= v <= 57) || (65 <= v <= 90) || (97 <= v <= 122)
}

/// Relies on rand's `thread_rng` sampled with `Alphanumeric`, which draws
/// bytes among `A-Z`, `a-z` and `0-9`: `len` such characters.
#[verifier::external_body]
fn random_alphanumeric(len: usize) -> (r: String)
    ensures
        r@.len() == len,
        forall|i: int| 0 <= i < len ==> is_token_char(#[trigger] r@[i]),
{
    rand::thread_rng().sample_iter(&Alphanumeric).take(len).map(char::from).collect()
}

/// A fresh token: ten random letters and digits.
pub fn gen_random_token() -> (r: String)
    ensures
        r@.len() == TOKEN_LENGTH,
        forall|i: int| 0 <= i < r@.len() ==> is_token_char(#[trigger] r@[i]),
{
    random_alphanumeric(TOKEN_LENGTH)
}

} // verus!
