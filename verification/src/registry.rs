//! The keybind registry: a mapping from keybind identifier to a key set and an
//! action name, plus an enabled flag gating all matching.
//!
//! Registration order is kept, and matching returns the action of the first
//! registered keybind whose whole key set is pressed. Re-registering an
//! existing identifier replaces the keybind in place (last write wins, not an
//! error); removal of an absent identifier is the one failure.

use crate::errors::KeybindError;
use crate::keys::KeyId;
use crate::pressed::PressedKeys;
use crate::text::str_eq;
use vstd::prelude::*;

verus! {

/// A named association between a set of keys and an action identifier.
struct Keybind {
    id: String,
    keys: Vec<KeyId>,
    action: String,
}

/// Abstract value of one keybind: its identifier, its key set (as the
/// sequence it was given in; order never matters for matching), and the
/// action name forwarded verbatim on trigger.
pub struct KeybindView {
    pub id: Seq<char>,
    pub keys: Seq<KeyId>,
    pub action: Seq<char>,
}

impl View for Keybind {
    type V = KeybindView;

    closed spec fn view(&self) -> KeybindView {
        KeybindView { id: self.id@, keys: self.keys@, action: self.action@ }
    }
}

/// The abstract keybind made of the views of its three parts.
pub open spec fn bind_view(id: Seq<char>, keys: Seq<KeyId>, action: Seq<char>) -> KeybindView {
    KeybindView { id: id, keys: keys, action: action }
}

/// No two registered keybinds share an identifier.
pub open spec fn unique_ids(binds: Seq<KeybindView>) -> bool {
    forall|i: int, j: int|
        0 <= i < binds.len() && 0 <= j < binds.len() && i != j ==> binds[i].id != binds[j].id
}

/// Some registered keybind carries the given identifier.
pub open spec fn has_id(binds: Seq<KeybindView>, id: Seq<char>) -> bool {
    exists|i: int| 0 <= i < binds.len() && binds[i].id == id
}

/// The position of the keybind carrying the given identifier (unique when
/// identifiers are unique).
pub open spec fn index_of_id(binds: Seq<KeybindView>, id: Seq<char>) -> int {
    choose|i: int| 0 <= i < binds.len() && binds[i].id == id
}

/// The keybind registered under the given identifier.
pub open spec fn bind_of(binds: Seq<KeybindView>, id: Seq<char>) -> KeybindView {
    binds[index_of_id(binds, id)]
}

/// Insert-or-replace: a keybind under a fresh identifier is appended; one
/// under a present identifier replaces the old keybind in place.
pub open spec fn upsert(binds: Seq<KeybindView>, b: KeybindView) -> Seq<KeybindView> {
    if has_id(binds, b.id) {
        binds.update(index_of_id(binds, b.id), b)
    } else {
        binds.push(b)
    }
}

/// The registry after deleting the keybind under the given identifier
/// (meaningful when the identifier is present).
pub open spec fn remove_id(binds: Seq<KeybindView>, id: Seq<char>) -> Seq<KeybindView> {
    binds.remove(index_of_id(binds, id))
}

/// Whether a keybind's whole key set is currently pressed.
pub open spec fn bind_matches(b: KeybindView, pressed: Set<KeyId>) -> bool {
    forall|i: int| 0 <= i < b.keys.len() ==> pressed.contains(#[trigger] b.keys[i])
}

/// The action of the first registered keybind whose whole key set is pressed,
/// in registration order; `None` when no keybind is satisfied.
pub open spec fn first_match(binds: Seq<KeybindView>, pressed: Set<KeyId>) -> Option<Seq<char>>
    decreases binds.len(),
{
    if binds.len() == 0 {
        None
    } else if bind_matches(binds[0], pressed) {
        Some(binds[0].action)
    } else {
        first_match(binds.drop_first(), pressed)
    }
}

/// What a match against the registry yields: nothing while disabled,
/// otherwise the first satisfied keybind's action.
pub open spec fn match_result(binds: Seq<KeybindView>, enabled: bool, pressed: Set<KeyId>) -> Option<
    Seq<char>,
> {
    if enabled {
        first_match(binds, pressed)
    } else {
        None
    }
}

/// The registry after a whole batch: each entry upserted in order.
pub open spec fn upsert_all(binds: Seq<KeybindView>, bs: Seq<KeybindView>) -> Seq<KeybindView>
    decreases bs.len(),
{
    if bs.len() == 0 {
        binds
    } else {
        upsert_all(upsert(binds, bs[0]), bs.drop_first())
    }
}

/// The abstract keybinds of a batch of (identifier, keys, action) entries.
pub open spec fn entry_views(entries: Seq<(String, Vec<KeyId>, String)>) -> Seq<KeybindView> {
    Seq::new(entries.len(), |i: int| bind_view(entries[i].0@, entries[i].1@, entries[i].2@))
}

/// The keybind registry. Created empty and enabled; identifiers stay unique
/// and every registered key set stays non-empty.
pub struct KeybindManager {
    keybinds: Vec<Keybind>,
    enabled: bool,
}

impl KeybindManager {
    /// The registered keybinds, in registration order.
    pub closed spec fn binds(&self) -> Seq<KeybindView> {
        Seq::new(self.keybinds@.len(), |i: int| self.keybinds@[i]@)
    }

    /// Whether matching is currently enabled.
    pub closed spec fn is_enabled(&self) -> bool {
        self.enabled
    }

    /// Registry invariant: unique identifiers, non-empty key sets.
    pub open spec fn wf(&self) -> bool {
        &&& unique_ids(self.binds())
        &&& forall|i: int|
            0 <= i < self.binds().len() ==> (#[trigger] self.binds()[i]).keys.len() > 0
    }

    /// The empty registry, enabled.
    pub fn new() -> (m: Self)
        ensures
            m.wf(),
            m.binds() == Seq::<KeybindView>::empty(),
            m.is_enabled(),
    {
        let m = KeybindManager { keybinds: Vec::new(), enabled: true };
        proof {
            assert(m.binds() =~= Seq::<KeybindView>::empty());
        }
        m
    }

    fn find_index(&self, id: &str) -> (r: Option<usize>)
        ensures
            match r {
                Some(i) => 0 <= i < self.binds().len() && self.binds()[i as int].id == id@,
                None => !has_id(self.binds(), id@),
            },
    {
        let n = self.keybinds.len();
        let mut i: usize = 0;
        while i < n
            invariant
                n == self.keybinds@.len(),
                0 <= i <= n,
                forall|j: int| 0 <= j < i ==> self.binds()[j].id != id@,
            decreases n - i,
        {
            if str_eq(self.keybinds[i].id.as_str(), id) {
                return Some(i);
            }
            i = i + 1;
        }
        None
    }

    /// Insert or replace the keybind under `id`. Never fails: replacing an
    /// existing identifier is intentional, last write wins.
    pub fn add_keybind(&mut self, id: String, keys: Vec<KeyId>, action: String) -> (r: Result<
        (),
        KeybindError,
    >)
        requires
            old(self).wf(),
            keys@.len() > 0,
        ensures
            final(self).wf(),
            final(self).is_enabled() == old(self).is_enabled(),
            r is Ok,
            final(self).binds() == upsert(old(self).binds(), bind_view(id@, keys@, action@)),
    {
        let ghost b = bind_view(id@, keys@, action@);
        let found = self.find_index(id.as_str());
        let kb = Keybind { id, keys, action };
        match found {
            Some(i) => {
                proof {
                    lemma_index_of_id(old(self).binds(), i as int);
                }
                self.keybinds[i] = kb;
                proof {
                    let prev = old(self).binds();
                    assert(self.binds() =~= prev.update(i as int, b));
                    assert(upsert(prev, b) == prev.update(i as int, b));
                    assert(unique_ids(self.binds())) by {
                        assert forall|p: int, q: int|
                            0 <= p < self.binds().len() && 0 <= q < self.binds().len() && p != q
                            implies self.binds()[p].id != self.binds()[q].id by {
                            assert(self.binds()[p].id == prev[p].id);
                            assert(self.binds()[q].id == prev[q].id);
                        }
                    }
                }
                Ok(())
            },
            None => {
                self.keybinds.push(kb);
                proof {
                    let prev = old(self).binds();
                    assert(self.binds() =~= prev.push(b));
                    assert(unique_ids(self.binds())) by {
                        assert forall|p: int, q: int|
                            0 <= p < self.binds().len() && 0 <= q < self.binds().len() && p != q
                            implies self.binds()[p].id != self.binds()[q].id by {
                            if p < prev.len() && q < prev.len() {
                            } else if p == prev.len() {
                                assert(prev[q].id != b.id);
                            } else {
                                assert(prev[p].id != b.id);
                            }
                        }
                    }
                }
                Ok(())
            },
        }
    }

    /// Delete the keybind under `id`; fails with `NotFound`, and changes
    /// nothing, exactly when no keybind carries that identifier.
    pub fn remove_keybind(&mut self, id: &str) -> (r: Result<(), KeybindError>)
        requires
            old(self).wf(),
        ensures
            final(self).wf(),
            final(self).is_enabled() == old(self).is_enabled(),
            has_id(old(self).binds(), id@) ==> r is Ok && final(self).binds() == remove_id(
                old(self).binds(),
                id@,
            ),
            !has_id(old(self).binds(), id@) ==> final(self).binds() == old(self).binds() && (
            r matches Err(KeybindError::NotFound(n)) && n@ == id@),
    {
        match self.find_index(id) {
            Some(i) => {
                proof {
                    lemma_index_of_id(old(self).binds(), i as int);
                }
                self.keybinds.remove(i);
                proof {
                    broadcast use vstd::seq_lib::group_seq_properties;

                    let prev = old(self).binds();
                    assert(self.binds() =~= prev.remove(i as int));
                    assert(unique_ids(self.binds())) by {
                        assert forall|p: int, q: int|
                            0 <= p < self.binds().len() && 0 <= q < self.binds().len() && p != q
                            implies self.binds()[p].id != self.binds()[q].id by {
                            let sp: int = if p < i {
                                p
                            } else {
                                p + 1
                            };
                            let sq: int = if q < i {
                                q
                            } else {
                                q + 1
                            };
                            assert(self.binds()[p].id == prev[sp].id);
                            assert(self.binds()[q].id == prev[sq].id);
                        }
                    }
                    assert forall|p: int| 0 <= p < self.binds().len() implies (
                    #[trigger] self.binds()[p]).keys.len() > 0 by {
                        let sp: int = if p < i {
                            p
                        } else {
                            p + 1
                        };
                        assert(self.binds()[p] == prev[sp]);
                    }
                }
                Ok(())
            },
            None => Err(KeybindError::NotFound(id.to_owned())),
        }
    }

    /// Upsert each entry of the batch in the given order. Never fails, since
    /// `add_keybind` never fails.
    pub fn add_keybinds_batch(&mut self, keybinds: Vec<(String, Vec<KeyId>, String)>) -> (r: Result<
        (),
        KeybindError,
    >)
        requires
            old(self).wf(),
            forall|i: int| 0 <= i < keybinds@.len() ==> (#[trigger] keybinds@[i]).1@.len() > 0,
        ensures
            final(self).wf(),
            final(self).is_enabled() == old(self).is_enabled(),
            r is Ok,
            final(self).binds() == upsert_all(old(self).binds(), entry_views(keybinds@)),
    {
        let ghost all = entry_views(keybinds@);
        let mut rest = keybinds;
        while rest.len() > 0
            invariant
                self.wf(),
                self.is_enabled() == old(self).is_enabled(),
                forall|i: int| 0 <= i < rest@.len() ==> (#[trigger] rest@[i]).1@.len() > 0,
                upsert_all(self.binds(), entry_views(rest@)) == upsert_all(
                    old(self).binds(),
                    all,
                ),
            decreases rest@.len(),
        {
            let ghost prev_rest = rest@;
            let ghost binds_before = self.binds();
            let (id, keys, action) = rest.remove(0);
            proof {
                assert(entry_views(rest@) =~= entry_views(prev_rest).drop_first());
                assert(entry_views(prev_rest)[0] == bind_view(id@, keys@, action@));
            }
            let res = self.add_keybind(id, keys, action);
            if let Err(e) = res {
                return Err(e);
            }
            proof {
                assert(upsert_all(binds_before, entry_views(prev_rest)) == upsert_all(
                    upsert(binds_before, entry_views(prev_rest)[0]),
                    entry_views(prev_rest).drop_first(),
                ));
            }
        }
        proof {
            assert(entry_views(rest@) =~= Seq::<KeybindView>::empty());
            assert(upsert_all(self.binds(), entry_views(rest@)) == self.binds());
        }
        Ok(())
    }

    /// Delete every keybind. Never fails; the enabled flag is untouched.
    pub fn remove_all_keybinds(&mut self)
        ensures
            final(self).wf(),
            final(self).binds() == Seq::<KeybindView>::empty(),
            final(self).is_enabled() == old(self).is_enabled(),
    {
        self.keybinds.clear();
        proof {
            assert(self.binds() =~= Seq::<KeybindView>::empty());
        }
    }

    /// Allow matching.
    pub fn enable(&mut self)
        ensures
            final(self).binds() == old(self).binds(),
            final(self).is_enabled(),
    {
        self.enabled = true;
    }

    /// Gate matching off: every match returns nothing until re-enabled.
    pub fn disable(&mut self)
        ensures
            final(self).binds() == old(self).binds(),
            !final(self).is_enabled(),
    {
        self.enabled = false;
    }

    fn bind_satisfied(kb: &Keybind, pressed_keys: &PressedKeys) -> (r: bool)
        ensures
            r == bind_matches(kb@, pressed_keys@),
    {
        let n = kb.keys.len();
        let mut i: usize = 0;
        while i < n
            invariant
                n == kb@.keys.len(),
                0 <= i <= n,
                forall|j: int| 0 <= j < i ==> pressed_keys@.contains(#[trigger] kb@.keys[j]),
            decreases n - i,
        {
            if !pressed_keys.contains(kb.keys[i]) {
                proof {
                    assert(!pressed_keys@.contains(kb@.keys[i as int]));
                }
                return false;
            }
            i = i + 1;
        }
        true
    }

    /// Match the pressed-key set against the registry: nothing while
    /// disabled, otherwise the action of the first registered keybind whose
    /// whole key set is pressed.
    pub fn check_keybinds(&self, pressed_keys: &PressedKeys) -> (r: Option<String>)
        ensures
            r is Some <==> match_result(self.binds(), self.is_enabled(), pressed_keys@) is Some,
            r matches Some(a) ==> match_result(self.binds(), self.is_enabled(), pressed_keys@)
                == Some(a@),
            !self.is_enabled() ==> r is None,
    {
        if !self.enabled {
            return None;
        }
        let n = self.keybinds.len();
        let mut i: usize = 0;
        proof {
            assert(self.binds().skip(0) =~= self.binds());
        }
        while i < n
            invariant
                self.is_enabled(),
                n == self.keybinds@.len(),
                0 <= i <= n,
                first_match(self.binds(), pressed_keys@) == first_match(
                    self.binds().skip(i as int),
                    pressed_keys@,
                ),
            decreases n - i,
        {
            if Self::bind_satisfied(&self.keybinds[i], pressed_keys) {
                proof {
                    assert(self.binds().skip(i as int)[0] == self.binds()[i as int]);
                    assert(bind_matches(self.binds()[i as int], pressed_keys@));
                }
                return Some(self.keybinds[i].action.clone());
            }
            proof {
                assert(self.binds().skip(i as int)[0] == self.binds()[i as int]);
                assert(!bind_matches(self.binds()[i as int], pressed_keys@));
                assert(self.binds().skip(i as int).drop_first() =~= self.binds().skip(i + 1));
            }
            i = i + 1;
        }
        proof {
            assert(self.binds().skip(n as int) =~= Seq::<KeybindView>::empty());
        }
        None
    }
}

proof fn lemma_index_of_id(binds: Seq<KeybindView>, i: int)
    requires
        unique_ids(binds),
        0 <= i < binds.len(),
    ensures
        has_id(binds, binds[i].id),
        index_of_id(binds, binds[i].id) == i,
{
    assert(has_id(binds, binds[i].id));
    let j = index_of_id(binds, binds[i].id);
    assert(0 <= j < binds.len() && binds[j].id == binds[i].id);
}

/// Law: upserting keeps identifiers unique, registers the keybind's
/// identifier, and maps that identifier to exactly this keybind.
pub proof fn lemma_upsert(binds: Seq<KeybindView>, b: KeybindView)
    requires
        unique_ids(binds),
    ensures
        unique_ids(upsert(binds, b)),
        has_id(upsert(binds, b), b.id),
        bind_of(upsert(binds, b), b.id) == b,
{
    let after = upsert(binds, b);
    if has_id(binds, b.id) {
        let i = index_of_id(binds, b.id);
        assert(0 <= i < binds.len() && binds[i].id == b.id);
        assert(after == binds.update(i, b));
        assert(unique_ids(after)) by {
            assert forall|p: int, q: int|
                0 <= p < after.len() && 0 <= q < after.len() && p != q implies after[p].id
                != after[q].id by {
                assert(after[p].id == binds[p].id);
                assert(after[q].id == binds[q].id);
            }
        }
        assert(after[i] == b);
        assert(has_id(after, b.id));
        let j = index_of_id(after, b.id);
        assert(0 <= j < after.len() && after[j].id == b.id);
        assert(j == i);
    } else {
        let n = binds.len() as int;
        assert(after == binds.push(b));
        assert(after[n] == b);
        assert(unique_ids(after)) by {
            assert forall|p: int, q: int|
                0 <= p < after.len() && 0 <= q < after.len() && p != q implies after[p].id
                != after[q].id by {
                if p < n && q < n {
                } else if p == n {
                    assert(binds[q].id != b.id);
                } else {
                    assert(binds[p].id != b.id);
                }
            }
        }
        assert(has_id(after, b.id));
        let j = index_of_id(after, b.id);
        assert(0 <= j < after.len() && after[j].id == b.id);
        assert(j == n);
    }
}

/// Law: adding a keybind under a fresh identifier and then removing that
/// identifier restores the registry exactly.
pub proof fn lemma_add_then_remove_round_trip(binds: Seq<KeybindView>, b: KeybindView)
    requires
        unique_ids(binds),
        !has_id(binds, b.id),
    ensures
        has_id(upsert(binds, b), b.id),
        remove_id(upsert(binds, b), b.id) == binds,
{
    broadcast use vstd::seq_lib::group_seq_properties;

    let after = upsert(binds, b);
    let n = binds.len() as int;
    assert(after == binds.push(b));
    assert(after[n] == b);
    assert(has_id(after, b.id));
    let j = index_of_id(after, b.id);
    assert(0 <= j < after.len() && after[j].id == b.id);
    if j < n {
        assert(binds[j].id == b.id);
        assert(false);
    }
    assert(j == n);
    assert(remove_id(after, b.id) =~= binds);
}

/// Law: registering twice under one identifier replaces, it does not
/// duplicate: afterwards exactly one keybind carries the identifier, and it
/// holds the second registration's keys and action.
pub proof fn lemma_add_replaces(binds: Seq<KeybindView>, b1: KeybindView, b2: KeybindView)
    requires
        unique_ids(binds),
        b1.id == b2.id,
    ensures
        unique_ids(upsert(upsert(binds, b1), b2)),
        has_id(upsert(upsert(binds, b1), b2), b2.id),
        bind_of(upsert(upsert(binds, b1), b2), b2.id) == b2,
{
    lemma_upsert(binds, b1);
    lemma_upsert(upsert(binds, b1), b2);
}

/// Law: while the registry is enabled, a pressed-key set that covers some
/// registered keybind's whole key set always yields some action.
pub proof fn lemma_match_some_when_satisfied(
    binds: Seq<KeybindView>,
    pressed: Set<KeyId>,
    i: int,
)
    requires
        0 <= i < binds.len(),
        bind_matches(binds[i], pressed),
    ensures
        match_result(binds, true, pressed) is Some,
    decreases binds.len(),
{
    if bind_matches(binds[0], pressed) {
    } else {
        assert(i != 0);
        assert(binds.drop_first()[i - 1] == binds[i]);
        lemma_match_some_when_satisfied(binds.drop_first(), pressed, i - 1);
    }
}

} // verus!
