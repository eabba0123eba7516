//! The set of currently pressed keys, as observed by the event loop. A key
//! moves into the set on a press event and out of it on a release event;
//! repeated presses while a key is already down are idempotent.

use crate::keys::KeyId;
use vstd::prelude::*;

verus! {

/// The pressed-key set. Abstractly a set of key identifiers; concretely a
/// vector without duplicates.
pub struct PressedKeys {
    keys: Vec<KeyId>,
}

impl View for PressedKeys {
    type V = Set<KeyId>;

    closed spec fn view(&self) -> Set<KeyId> {
        Set::new(|k: KeyId| self.keys@.contains(k))
    }
}

impl PressedKeys {
    /// The backing vector holds each pressed key exactly once.
    pub closed spec fn wf(&self) -> bool {
        self.keys@.no_duplicates()
    }

    /// The empty pressed-key set: no key is down at startup.
    pub fn new() -> (s: Self)
        ensures
            s.wf(),
            s@ == Set::<KeyId>::empty(),
    {
        let s = PressedKeys { keys: Vec::new() };
        proof {
            assert(s@ =~= Set::<KeyId>::empty());
        }
        s
    }

    /// Whether the given key is currently down.
    pub fn contains(&self, k: KeyId) -> (r: bool)
        ensures
            r == self@.contains(k),
    {
        let n = self.keys.len();
        let mut i: usize = 0;
        while i < n
            invariant
                n == self.keys@.len(),
                0 <= i <= n,
                forall|j: int| 0 <= j < i ==> self.keys@[j] != k,
            decreases n - i,
        {
            if self.keys[i] == k {
                return true;
            }
            i = i + 1;
        }
        proof {
            assert(!self.keys@.contains(k));
        }
        false
    }

    /// Record a press event: the key joins the set. Pressing a key that is
    /// already down changes nothing.
    pub fn press(&mut self, k: KeyId)
        requires
            old(self).wf(),
        ensures
            final(self).wf(),
            final(self)@ == old(self)@.insert(k),
    {
        if !self.contains(k) {
            self.keys.push(k);
            proof {
                broadcast use vstd::seq_lib::group_seq_properties;

                assert(self.keys@.no_duplicates());
                assert(self@ =~= old(self)@.insert(k));
            }
        } else {
            proof {
                assert(self@ =~= old(self)@.insert(k));
            }
        }
    }

    /// Record a release event: the key leaves the set. Releasing a key that is
    /// not down changes nothing.
    pub fn release(&mut self, k: KeyId)
        requires
            old(self).wf(),
        ensures
            final(self).wf(),
            final(self)@ == old(self)@.remove(k),
    {
        let n = self.keys.len();
        let mut i: usize = 0;
        while i < n
            invariant
                n == self.keys@.len(),
                0 <= i <= n,
                self.keys@.no_duplicates(),
                self.keys@ == old(self).keys@,
                forall|j: int| 0 <= j < i ==> self.keys@[j] != k,
            decreases n - i,
        {
            if self.keys[i] == k {
                let ghost prev = self.keys@;
                self.keys.remove(i);
                proof {
                    broadcast use vstd::seq_lib::group_seq_properties;

                    assert(self.keys@ == prev.remove(i as int));
                    assert(self.keys@ =~= prev.take(i as int) + prev.skip(i as int + 1));
                    assert forall|x: KeyId| self.keys@.contains(x) implies prev.contains(x)
                        && x != k by {
                        let jj = choose|jj: int|
                            0 <= jj < self.keys@.len() && self.keys@[jj] == x;
                        if jj < i {
                            assert(prev[jj] == x);
                        } else {
                            assert(prev[jj + 1] == x);
                        }
                        if x == k {
                            let src: int = if jj < i {
                                jj
                            } else {
                                jj + 1
                            };
                            assert(prev[src] == k && prev[i as int] == k && src != i);
                        }
                    }
                    assert forall|x: KeyId| prev.contains(x) && x != k implies
                        self.keys@.contains(x) by {
                        let jj = choose|jj: int| 0 <= jj < prev.len() && prev[jj] == x;
                        if jj < i {
                            assert(self.keys@[jj] == x);
                        } else {
                            assert(jj != i);
                            assert(self.keys@[jj - 1] == x);
                        }
                    }
                    assert(self.keys@.no_duplicates()) by {
                        assert forall|a: int, b: int|
                            0 <= a < self.keys@.len() && 0 <= b < self.keys@.len() && a != b
                            implies self.keys@[a] != self.keys@[b] by {
                            let sa: int = if a < i {
                                a
                            } else {
                                a + 1
                            };
                            let sb: int = if b < i {
                                b
                            } else {
                                b + 1
                            };
                            assert(self.keys@[a] == prev[sa] && self.keys@[b] == prev[sb]);
                        }
                    }
                    assert(self@ =~= old(self)@.remove(k));
                }
                return ;
            }
            i = i + 1;
        }
        proof {
            assert(!self.keys@.contains(k));
            assert(self@ =~= old(self)@.remove(k));
        }
    }
}

} // verus!
