use simple_wkd::errors::{CompatErr, SpecialErrors};
use simple_wkd::management::{Action, Pending};
use simple_wkd::settings::Variant;
use simple_wkd::submission::{submit_addition, submit_deletion};

#[test]
fn addition_is_staged_under_a_fresh_token() {
    let s = submit_addition("PEM BLOCK".to_string(), "alice@example.org");
    assert_eq!(s.token.len(), 10);
    assert_eq!(s.entry.path, format!("data/pending/{}", s.token));
    let p = Pending::deserialize(&s.entry.content).unwrap();
    assert_eq!(*p.action(), Action::Add);
    assert_eq!(p.data(), "PEM BLOCK");
}

#[test]
fn deletion_of_a_missing_key_is_refused_before_a_token_is_drawn() {
    let r = submit_deletion("nobody@example.org".to_string(), Variant::Advanced, false);
    assert_eq!(r.unwrap_err(), CompatErr::SpecialErr(SpecialErrors::InexistingUser));
}

#[test]
fn deletion_of_a_malformed_address_is_refused() {
    let r = submit_deletion("nobody".to_string(), Variant::Direct, true);
    assert_eq!(r.unwrap_err(), CompatErr::SpecialErr(SpecialErrors::MalformedEmail));
}

#[test]
fn deletion_of_a_published_key_is_staged() {
    let s = submit_deletion("bob@example.org".to_string(), Variant::Direct, true).unwrap();
    assert_eq!(s.entry.path, format!("data/pending/{}", s.token));
    let p = Pending::deserialize(&s.entry.content).unwrap();
    assert_eq!(*p.action(), Action::Delete);
    assert_eq!(p.data(), "bob@example.org");
}
