//! Pending requests: their stored text, the pending store's paths, and
//! the sweep that removes stale entries.

use vstd::prelude::*;
use vstd::string::*;

use crate::errors::ServiceError;
use crate::record::{
    decimal, find, lemma_decimal_round_trip, lemma_find, lemma_find_props, parse_decimal,
    parse_timestamp, push_char, push_decimal,
};
use crate::settings::ROOT_FOLDER;

verus! {

/// What a pending request asks for.
#[derive(Debug, Clone, Copy, PartialEq, Eq, Structural)]
pub enum Action {
    Add,
    Delete,
}

/// A request staged until its owner confirms it: for `Add` the data is the
/// submitted key block, for `Delete` the address whose key goes.
#[derive(Debug)]
pub struct Pending {
    action: Action,
    data: String,
    timestamp: i64,
}

/// The content of a [`Pending`].
pub struct PendingView {
    pub action: Action,
    pub data: Seq<char>,
    pub timestamp: i64,
}

impl View for Pending {
    type V = PendingView;

    closed spec fn view(&self) -> PendingView {
        PendingView { action: self.action, data: self.data@, timestamp: self.timestamp }
    }
}

/// Relies on chrono's `Utc::now` and `DateTime::timestamp`: the current
/// time in seconds since the epoch; `Utc::now` panics on a clock set before
/// the epoch rather than return an earlier time.
#[verifier::external_body]
pub(crate) fn current_timestamp() -> (r: i64)
    ensures
        r >= 0,
{
    chrono::Utc::now().timestamp()
}

impl Pending {
    pub fn new(action: Action, data: String, timestamp: i64) -> (r: Pending)
        ensures
            r@ == (PendingView { action, data: data@, timestamp }),
    {
        Pending { action, data, timestamp }
    }

    /// A request to publish `pem`, stamped with the current time.
    pub fn build_add(pem: String) -> (r: Pending)
        ensures
            r@.action == Action::Add,
            r@.data == pem@,
    {
        let timestamp = current_timestamp();
        Pending { action: Action::Add, data: pem, timestamp }
    }

    /// A request to withdraw the key of `email`, stamped with the current time.
    pub fn build_delete(email: String) -> (r: Pending)
        ensures
            r@.action == Action::Delete,
            r@.data == email@,
    {
        let timestamp = current_timestamp();
        Pending { action: Action::Delete, data: email, timestamp }
    }

    pub fn action(&self) -> (r: &Action)
        ensures
            *r == self@.action,
    {
        &self.action
    }

    pub fn data(&self) -> (r: &str)
        ensures
            r@ == self@.data,
    {
        self.data.as_str()
    }

    pub fn timestamp(&self) -> (r: i64)
        ensures
            r == self@.timestamp,
    {
        self.timestamp
    }
}

impl Action {
    /// The word that names the action.
    pub fn word(&self) -> (r: String)
        ensures
            r@ == action_word(*self),
    {
        let mut s = String::new();
        match self {
            Action::Add => {
                push_char(&mut s, 'A');
                push_char(&mut s, 'd');
                push_char(&mut s, 'd');
            },
            Action::Delete => {
                push_char(&mut s, 'D');
                push_char(&mut s, 'e');
                push_char(&mut s, 'l');
                push_char(&mut s, 'e');
                push_char(&mut s, 't');
                push_char(&mut s, 'e');
            },
        }
        assert(s@ =~= action_word(*self));
        s
    }
}

/// The word that names an action in a stored record.
pub open spec fn action_word(a: Action) -> Seq<char> {
    match a {
        Action::Add => seq!['A', 'd', 'd'],
        Action::Delete => seq!['D', 'e', 'l', 'e', 't', 'e'],
    }
}

pub open spec fn word_action(w: Seq<char>) -> Option<Action> {
    if w == action_word(Action::Add) {
        Some(Action::Add)
    } else if w == action_word(Action::Delete) {
        Some(Action::Delete)
    } else {
        None
    }
}

/// The stored text of a request: the action word, a line break, the
/// timestamp in decimal, a line break, and the data as it is.
pub open spec fn record_text(p: PendingView) -> Seq<char> {
    action_word(p.action) + seq!['\n'] + decimal(p.timestamp) + seq!['\n'] + p.data
}

/// Reads a stored record; `None` when the text is not one.
pub open spec fn parse_record(s: Seq<char>) -> Option<PendingView> {
    match find(s, '\n') {
        None => None,
        Some(i) => match word_action(s.subrange(0, i)) {
            None => None,
            Some(action) => {
                let rest = s.subrange(i + 1, s.len() as int);
                match find(rest, '\n') {
                    None => None,
                    Some(j) => match parse_decimal(rest.subrange(0, j)) {
                        None => None,
                        Some(timestamp) => Some(
                            PendingView {
                                action,
                                data: rest.subrange(j + 1, rest.len() as int),
                                timestamp,
                            },
                        ),
                    },
                }
            },
        },
    }
}

/// A stored request reads back exactly as it was written.
pub proof fn lemma_record_round_trip(p: PendingView)
    ensures
        parse_record(record_text(p)) == Some(p),
{
    let w = action_word(p.action);
    let d = decimal(p.timestamp);
    let s = record_text(p);
    lemma_decimal_round_trip(p.timestamp);
    assert forall|k: int| 0 <= k < w.len() implies s[k] != '\n' by {
        assert(s[k] == w[k]);
    }
    assert(s[w.len() as int] == '\n');
    lemma_find(s, '\n', w.len() as int);
    assert(s.subrange(0, w.len() as int) =~= w);
    let rest = s.subrange(w.len() as int + 1, s.len() as int);
    assert(rest =~= d + seq!['\n'] + p.data);
    assert forall|k: int| 0 <= k < d.len() implies rest[k] != '\n' by {
        assert(rest[k] == d[k]);
    }
    assert(rest[d.len() as int] == '\n');
    lemma_find(rest, '\n', d.len() as int);
    assert(rest.subrange(0, d.len() as int) =~= d);
    assert(rest.subrange(d.len() as int + 1, rest.len() as int) =~= p.data);
}


/// Reads the action word held by the first `len` characters of `text`.
fn parse_action(text: &str, len: usize) -> (r: Option<Action>)
    requires
        len <= text@.len(),
    ensures
        r == word_action(text@.subrange(0, len as int)),
{
    let ghost w = text@.subrange(0, len as int);
    let ghost add = action_word(Action::Add);
    let ghost del = action_word(Action::Delete);
    assert(add.len() == 3 && add[0] == 'A' && add[1] == 'd' && add[2] == 'd');
    assert(del.len() == 6 && del[0] == 'D' && del[1] == 'e' && del[2] == 'l');
    assert(del[3] == 'e' && del[4] == 't' && del[5] == 'e');
    if len == 3 {
        let c0 = text.get_char(0);
        let c1 = text.get_char(1);
        let c2 = text.get_char(2);
        assert(w[0] == c0 && w[1] == c1 && w[2] == c2);
        if c0 == 'A' && c1 == 'd' && c2 == 'd' {
            assert(w =~= add);
            Some(Action::Add)
        } else {
            None
        }
    } else if len == 6 {
        let c0 = text.get_char(0);
        let c1 = text.get_char(1);
        let c2 = text.get_char(2);
        let c3 = text.get_char(3);
        let c4 = text.get_char(4);
        let c5 = text.get_char(5);
        assert(w[0] == c0 && w[1] == c1 && w[2] == c2);
        assert(w[3] == c3 && w[4] == c4 && w[5] == c5);
        if c0 == 'D' && c1 == 'e' && c2 == 'l' && c3 == 'e' && c4 == 't' && c5 == 'e' {
            assert(w =~= del);
            Some(Action::Delete)
        } else {
            None
        }
    } else {
        None
    }
}

/// The position of the first line break in `text` at or after `from`,
/// looking at no more than `limit` characters; the position where the
/// search stopped otherwise.
fn find_line_break(text: &str, from: usize, limit: usize) -> (r: usize)
    requires
        from <= text@.len(),
        limit <= usize::MAX - from,
    ensures
        from <= r <= text@.len(),
        r <= from + limit,
        forall|k: int| from <= k < r ==> text@[k] != '\n',
        r < text@.len() && text@[r as int] != '\n' ==> r == from + limit,
{
    let n = text.unicode_len();
    let mut i = from;
    while i < n && i < from + limit && text.get_char(i) != '\n'
        invariant
            from <= i <= n,
            n == text@.len(),
            i <= from + limit,
            limit <= usize::MAX - from,
            forall|k: int| from <= k < i ==> text@[k] != '\n',
        decreases n - i,
    {
        i = i + 1;
    }
    i
}

impl Pending {
    /// The stored text of this request.
    pub fn serialize(&self) -> (r: String)
        ensures
            r@ == record_text(self@),
    {
        let mut s = self.action.word();
        push_char(&mut s, '\n');
        push_decimal(&mut s, self.timestamp);
        push_char(&mut s, '\n');
        s.append(self.data.as_str());
        assert(s@ =~= record_text(self@));
        s
    }

    /// Reads a stored request; fails with `DeserializeData` on text that is
    /// not a record.
    pub fn deserialize(text: &str) -> (r: Result<Pending, ServiceError>)
        ensures
            parse_record(text@) matches Some(p) ==> r matches Ok(q) && q@ == p,
            parse_record(text@) is None ==> r == Err::<Pending, ServiceError>(ServiceError::DeserializeData),
    {
        let ghost s = text@;
        let n = text.unicode_len();
        proof {
            lemma_find_props(s, '\n');
        }
        let i = find_line_break(text, 0, 7);
        if i == n || text.get_char(i) != '\n' {
            proof {
                if let Some(j) = find(s, '\n') {
                    assert(j >= 7);
                    assert(s.subrange(0, j).len() != 3 && s.subrange(0, j).len() != 6);
                }
            }
            return Err(ServiceError::DeserializeData);
        }
        proof {
            lemma_find(s, '\n', i as int);
        }
        let action = match parse_action(text, i) {
            Some(a) => a,
            None => return Err(ServiceError::DeserializeData),
        };
        let ghost rest = s.subrange(i + 1, s.len() as int);
        proof {
            lemma_find_props(rest, '\n');
        }
        let j = find_line_break(text, i + 1, 21);
        assert forall|k: int| 0 <= k < j - (i + 1) implies rest[k] != '\n' by {
            assert(rest[k] == s[k + i + 1]);
        }
        if j == n || text.get_char(j) != '\n' {
            proof {
                if j == n {
                    lemma_find(rest, '\n', j - (i + 1));
                } else if let Some(m) = find(rest, '\n') {
                    assert(rest[m] == s[m + i + 1]);
                    assert(m >= 21);
                }
            }
            return Err(ServiceError::DeserializeData);
        }
        assert(rest[j - (i + 1)] == s[j as int]);
        proof {
            lemma_find(rest, '\n', j - (i + 1));
        }
        assert(rest.subrange(0, j - (i + 1)) =~= s.subrange(i + 1, j as int));
        let timestamp = match parse_timestamp(text, i + 1, j) {
            Some(t) => t,
            None => return Err(ServiceError::DeserializeData),
        };
        let data = String::from_str(text.substring_char(j + 1, n));
        assert(rest.subrange(j - i, rest.len() as int) =~= s.subrange(j + 1, n as int));
        Ok(Pending { action, data, timestamp })
    }
}

/// The folder of the pending store.
pub open spec fn pending_dir() -> Seq<char> {
    ROOT_FOLDER@ + "/pending"@
}

/// The place where the request of `token` is stored.
pub open spec fn entry_path(token: Seq<char>) -> Seq<char> {
    pending_dir() + "/"@ + token
}

pub fn pending_path() -> (r: String)
    ensures
        r@ == pending_dir(),
{
    let mut p = String::from_str(ROOT_FOLDER);
    p.append("/pending");
    p
}

pub fn pending_entry_path(token: &str) -> (r: String)
    ensures
        r@ == entry_path(token@),
{
    let mut p = pending_path();
    p.append("/");
    p.append(token);
    p
}

/// A write that the pending store has to make: `content` under `path`.
#[derive(Debug)]
pub struct PendingEntry {
    pub path: String,
    pub content: String,
}

/// Stores `pending` under `token`.
pub fn store_pending(pending: &Pending, token: &str) -> (r: PendingEntry)
    ensures
        r.path@ == entry_path(token@),
        r.content@ == record_text(pending@),
{
    PendingEntry { path: pending_entry_path(token), content: pending.serialize() }
}

/// Stages the publication of `pem` under `token`.
pub fn store_pending_addition(pem: String, _email: &str, token: &str) -> (r: PendingEntry)
    ensures
        r.path@ == entry_path(token@),
        parse_record(r.content@) matches Some(p) && p.action == Action::Add && p.data == pem@
            && r.content@ == record_text(p),
{
    let pending = Pending::build_add(pem);
    proof {
        lemma_record_round_trip(pending@);
    }
    store_pending(&pending, token)
}

/// Stages the withdrawal of the key of `email` under `token`.
pub fn store_pending_deletion(email: String, token: &str) -> (r: PendingEntry)
    ensures
        r.path@ == entry_path(token@),
        parse_record(r.content@) matches Some(p) && p.action == Action::Delete && p.data
            == email@ && r.content@ == record_text(p),
{
    let pending = Pending::build_delete(email);
    proof {
        lemma_record_round_trip(pending@);
    }
    store_pending(&pending, token)
}


/// What reading the pending entry of a token gave.
#[derive(Debug)]
pub enum PendingRead {
    /// No entry is stored under the token.
    Missing,
    /// The entry exists but could not be read.
    Unreadable,
    /// The text of the entry.
    Content(String),
}

/// Whether a request created at `p.timestamp` is older than `max_age` at `now`.
pub open spec fn stale(p: PendingView, now: i64, max_age: i64) -> bool {
    now - p.timestamp > max_age
}

pub fn is_stale(pending: &Pending, now: i64, max_age: i64) -> (r: bool)
    ensures
        r == stale(pending@, now, max_age),
{
    (now as i128) - (pending.timestamp() as i128) > max_age as i128
}

/// An entry of the pending store as a sweep found it.
#[derive(Debug)]
pub struct ScannedEntry {
    /// The name of the entry, which is its token.
    pub name: String,
    pub read: PendingRead,
}

/// Whether a sweep at `now` removes an entry: only a readable, well-formed
/// record that is stale goes; anything else is skipped.
pub open spec fn reaped(read: PendingRead, now: i64, max_age: i64) -> bool {
    read matches PendingRead::Content(c) && parse_record(c@) matches Some(p) && stale(
        p,
        now,
        max_age,
    )
}

/// The names of the entries that a sweep at `now` removes, in scan order.
pub open spec fn stale_names(entries: Seq<ScannedEntry>, now: i64, max_age: i64) -> Seq<Seq<char>>
    decreases entries.len(),
{
    if entries.len() == 0 {
        Seq::empty()
    } else {
        let rest = stale_names(entries.drop_last(), now, max_age);
        if reaped(entries.last().read, now, max_age) {
            rest.push(entries.last().name@)
        } else {
            rest
        }
    }
}

/// The entries that a sweep at `now` removes.
pub fn stale_tokens(entries: &Vec<ScannedEntry>, now: i64, max_age: i64) -> (r: Vec<String>)
    ensures
        r@.map_values(|t: String| t@) == stale_names(entries@, now, max_age),
{
    let mut r: Vec<String> = Vec::new();
    let mut k: usize = 0;
    while k < entries.len()
        invariant
            k <= entries@.len(),
            r@.map_values(|t: String| t@) == stale_names(entries@.subrange(0, k as int), now, max_age),
        decreases entries@.len() - k,
    {
        let entry = &entries[k];
        let reap = match &entry.read {
            PendingRead::Content(c) => match Pending::deserialize(c.as_str()) {
                Ok(p) => is_stale(&p, now, max_age),
                Err(_) => false,
            },
            _ => false,
        };
        let ghost before = r@.map_values(|t: String| t@);
        if reap {
            r.push(entry.name.clone());
        }
        proof {
            let sub = entries@.subrange(0, k + 1);
            assert(sub.drop_last() =~= entries@.subrange(0, k as int));
            assert(sub.last() == entries@[k as int]);
            if reap {
                assert(r@.map_values(|t: String| t@) =~= before.push(entry.name@));
            }
        }
        k = k + 1;
    }
    assert(entries@.subrange(0, entries@.len() as int) =~= entries@);
    r
}

/// One sweep of the pending store, at the current time.
pub fn clean_stale(entries: &Vec<ScannedEntry>, max_age: i64) -> (r: Vec<String>)
    ensures
        exists|now: i64| r@.map_values(|t: String| t@) == stale_names(entries@, now, max_age),
{
    let now = current_timestamp();
    stale_tokens(entries, now, max_age)
}

/// A sweep at `now` removes every entry that holds a request stale at `now`.
pub proof fn lemma_sweep_reaps_stale(entries: Seq<ScannedEntry>, now: i64, max_age: i64, k: int)
    requires
        0 <= k < entries.len(),
        reaped(entries[k].read, now, max_age),
    ensures
        stale_names(entries, now, max_age).contains(entries[k].name@),
    decreases entries.len(),
{
    let rest = stale_names(entries.drop_last(), now, max_age);
    if k == entries.len() - 1 {
        assert(stale_names(entries, now, max_age) == rest.push(entries[k].name@));
        assert(stale_names(entries, now, max_age)[rest.len() as int] == entries[k].name@);
    } else {
        assert(entries.drop_last()[k] == entries[k]);
        lemma_sweep_reaps_stale(entries.drop_last(), now, max_age, k);
        let i = choose|i: int| 0 <= i < rest.len() && rest[i] == entries[k].name@;
        if reaped(entries.last().read, now, max_age) {
            assert(stale_names(entries, now, max_age)[i] == entries[k].name@);
        }
    }
}

} // verus!
