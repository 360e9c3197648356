//! The tokens that are being worked on, so that a confirmation and a sweep
//! never act on one pending entry at the same time.

use vstd::prelude::*;

verus! {

/// Whether one of the first `n` strings of `v` reads `t`.
pub open spec fn among(v: Seq<String>, n: int, t: Seq<char>) -> bool {
    exists|j: int| 0 <= j < n && j < v.len() && v[j]@ == t
}

/// A table of held tokens.
pub struct TokenLocks {
    held: Vec<String>,
}

impl View for TokenLocks {
    type V = Set<Seq<char>>;

    closed spec fn view(&self) -> Set<Seq<char>> {
        Set::new(|t: Seq<char>| among(self.held@, self.held@.len() as int, t))
    }
}

impl TokenLocks {
    pub fn new() -> (r: TokenLocks)
        ensures
            r@ == Set::<Seq<char>>::empty(),
    {
        let r = TokenLocks { held: Vec::new() };
        assert(r@ =~= Set::<Seq<char>>::empty());
        r
    }

    pub fn is_held(&self, token: &str) -> (r: bool)
        ensures
            r == self@.contains(token@),
    {
        let wanted = String::from_str(token);
        let mut i: usize = 0;
        while i < self.held.len()
            invariant
                i <= self.held@.len(),
                wanted@ == token@,
                forall|j: int| 0 <= j < i ==> self.held@[j]@ != token@,
            decreases self.held@.len() - i,
        {
            if self.held[i] == wanted {
                assert(self.held@[i as int]@ == token@);
                return true;
            }
            i = i + 1;
        }
        false
    }

    /// Takes `token` unless it is held already; tells whether it was taken.
    pub fn try_acquire(&mut self, token: &str) -> (r: bool)
        ensures
            r == !old(self)@.contains(token@),
            final(self)@ == old(self)@.insert(token@),
    {
        if self.is_held(token) {
            assert(self@ =~= old(self)@.insert(token@));
            return false;
        }
        let ghost before = self.held@;
        self.held.push(String::from_str(token));
        assert forall|t: Seq<char>| #[trigger] self@.contains(t) <==> old(self)@.insert(
            token@,
        ).contains(t) by {
            if self@.contains(t) {
                let i = choose|i: int|
                    0 <= i < self.held@.len() && i < self.held@.len() && self.held@[i]@ == t;
                if i < before.len() {
                    assert(before[i]@ == t);
                }
            }
            if old(self)@.contains(t) {
                let i = choose|i: int| 0 <= i < before.len() && i < before.len() && before[i]@ == t;
                assert(self.held@[i]@ == t);
            }
            if t == token@ {
                assert(self.held@[before.len() as int]@ == t);
            }
        }
        assert(self@ =~= old(self)@.insert(token@));
        true
    }

    /// Gives `token` back.
    pub fn release(&mut self, token: &str)
        ensures
            final(self)@ == old(self)@.remove(token@),
    {
        let ghost old_view = self@;
        let wanted = String::from_str(token);
        let mut kept: Vec<String> = Vec::new();
        let mut i: usize = 0;
        while i < self.held.len()
            invariant
                i <= self.held@.len(),
                old_view == old(self)@,
                wanted@ == token@,
                self.held@ == old(self).held@,
                forall|t: Seq<char>|
                    #[trigger] among(kept@, kept@.len() as int, t) <==> (among(
                        self.held@,
                        i as int,
                        t,
                    ) && t != token@),
            decreases self.held@.len() - i,
        {
            let ghost k0 = kept@;
            let keep = !(self.held[i] == wanted);
            if keep {
                let copy = self.held[i].clone();
                kept.push(copy);
                assert(kept@[kept@.len() - 1]@ == self.held@[i as int]@);
            }
            assert forall|t: Seq<char>|
                #[trigger] among(kept@, kept@.len() as int, t) <==> (among(
                    self.held@,
                    i + 1,
                    t,
                ) && t != token@) by {
                if among(kept@, kept@.len() as int, t) {
                    let j = choose|j: int| 0 <= j < kept@.len() && j < kept@.len() && kept@[j]@ == t;
                    if j < k0.len() {
                        assert(k0[j]@ == t);
                        assert(among(k0, k0.len() as int, t));
                    } else {
                        assert(self.held@[i as int]@ == t);
                    }
                }
                if among(self.held@, i + 1, t) && t != token@ {
                    let j = choose|j: int|
                        0 <= j < i + 1 && j < self.held@.len() && self.held@[j]@ == t;
                    if j < i {
                        assert(among(self.held@, i as int, t));
                        assert(among(k0, k0.len() as int, t));
                        let m = choose|m: int| 0 <= m < k0.len() && m < k0.len() && k0[m]@ == t;
                        assert(kept@[m]@ == t);
                    } else {
                        assert(keep);
                        assert(kept@[kept@.len() - 1]@ == t);
                    }
                }
            }
            i = i + 1;
        }
        self.held = kept;
        assert(self@ =~= old_view.remove(token@));
    }
}

} // verus!
