//! The command surface the enclosing application calls: registration given
//! canonical key names rather than key identifiers, and the manual trigger
//! path. The host is responsible only for locking its registry instance and
//! for turning errors into whatever its transport wants.

use crate::errors::KeybindError;
use crate::keys::{key_of_name, string_to_key, KeyId};
use crate::registry::{bind_view, upsert, KeybindManager, KeybindView};
use vstd::prelude::*;
use vstd::string::StringExecFns;

verus! {

/// Every name in the sequence is in the key vocabulary.
pub open spec fn all_known(names: Seq<Seq<char>>) -> bool {
    forall|i: int| 0 <= i < names.len() ==> key_of_name(#[trigger] names[i]) is Some
}

/// The key identifiers a sequence of names resolves to (meaningful when all
/// names are known).
pub open spec fn resolved_keys(names: Seq<Seq<char>>) -> Seq<KeyId> {
    Seq::new(names.len(), |i: int| key_of_name(names[i])->Some_0)
}

/// `n` is the first name of the sequence the vocabulary does not know: every
/// name before it resolves.
pub open spec fn is_first_unknown(names: Seq<Seq<char>>, n: Seq<char>) -> bool {
    exists|i: int|
        0 <= i < names.len() && #[trigger] names[i] == n && key_of_name(n) is None && (forall|
            j: int,
        |
            0 <= j < i ==> key_of_name(#[trigger] names[j]) is Some)
}

/// Resolve each name of the sequence, in order. Succeeds with the resolved
/// identifiers exactly when every name is known; otherwise fails with
/// `UnknownKey` carrying the first unknown name.
pub fn resolve_keys(names: &Vec<String>) -> (r: Result<Vec<KeyId>, KeybindError>)
    ensures
        all_known(names.deep_view()) ==> (r matches Ok(ks) && ks@ == resolved_keys(
            names.deep_view(),
        )),
        !all_known(names.deep_view()) ==> (r matches Err(KeybindError::UnknownKey(n))
            && is_first_unknown(names.deep_view(), n@)),
{
    let n = names.len();
    let mut out: Vec<KeyId> = Vec::new();
    let mut i: usize = 0;
    while i < n
        invariant
            n == names@.len(),
            0 <= i <= n,
            out@.len() == i,
            forall|j: int|
                0 <= j < i ==> key_of_name(#[trigger] names.deep_view()[j]) is Some,
            forall|j: int|
                0 <= j < i ==> #[trigger] out@[j] == key_of_name(names.deep_view()[j])->Some_0,
        decreases n - i,
    {
        match string_to_key(names[i].as_str()) {
            Ok(k) => {
                out.push(k);
            },
            Err(e) => {
                proof {
                    assert(names.deep_view()[i as int] == names@[i as int]@);
                    assert(key_of_name(names.deep_view()[i as int]) is None);
                    assert(!all_known(names.deep_view()));
                }
                return Err(e);
            },
        }
        i = i + 1;
    }
    proof {
        assert(out@ =~= resolved_keys(names.deep_view()));
    }
    Ok(out)
}

/// Command: register one keybind given by its key names. Succeeds, replacing
/// any keybind already under `id`, exactly when every name resolves;
/// otherwise the registry is unchanged and the first unknown name is
/// reported.
pub fn add_keybind(
    manager: &mut KeybindManager,
    id: String,
    key_names: Vec<String>,
    action: String,
) -> (r: Result<(), KeybindError>)
    requires
        old(manager).wf(),
        key_names@.len() > 0,
    ensures
        final(manager).wf(),
        final(manager).is_enabled() == old(manager).is_enabled(),
        all_known(key_names.deep_view()) ==> (r is Ok && final(manager).binds() == upsert(
            old(manager).binds(),
            bind_view(id@, resolved_keys(key_names.deep_view()), action@),
        )),
        !all_known(key_names.deep_view()) ==> final(manager).binds() == old(manager).binds() && (
        r matches Err(KeybindError::UnknownKey(n)) && is_first_unknown(
            key_names.deep_view(),
            n@,
        )),
{
    let keys = match resolve_keys(&key_names) {
        Ok(ks) => ks,
        Err(e) => {
            return Err(e);
        },
    };
    manager.add_keybind(id, keys, action)
}

/// The abstract (identifier, key names, action) entries of a batch.
pub open spec fn named_entry_views(entries: Seq<(String, Vec<String>, String)>) -> Seq<
    (Seq<char>, Seq<Seq<char>>, Seq<char>),
> {
    Seq::new(entries.len(), |i: int| (entries[i].0@, entries[i].1.deep_view(), entries[i].2@))
}

/// Every key name of every entry of the batch is known.
pub open spec fn batch_ok(entries: Seq<(Seq<char>, Seq<Seq<char>>, Seq<char>)>) -> bool {
    forall|i: int| 0 <= i < entries.len() ==> all_known((#[trigger] entries[i]).1)
}

/// The registry after a named batch: entries are upserted in order up to, and
/// not including, the first entry with an unknown key name; that entry and
/// everything after it are not applied.
pub open spec fn apply_named_batch(
    binds: Seq<KeybindView>,
    entries: Seq<(Seq<char>, Seq<Seq<char>>, Seq<char>)>,
) -> Seq<KeybindView>
    decreases entries.len(),
{
    if entries.len() == 0 {
        binds
    } else if !all_known(entries[0].1) {
        binds
    } else {
        apply_named_batch(
            upsert(binds, bind_view(entries[0].0, resolved_keys(entries[0].1), entries[0].2)),
            entries.drop_first(),
        )
    }
}

/// `n` is the first unknown key name of the first failing entry: every
/// earlier entry resolves completely.
pub open spec fn batch_first_unknown(
    entries: Seq<(Seq<char>, Seq<Seq<char>>, Seq<char>)>,
    n: Seq<char>,
) -> bool {
    exists|i: int|
        0 <= i < entries.len() && is_first_unknown((#[trigger] entries[i]).1, n) && (forall|
            j: int,
        |
            0 <= j < i ==> all_known((#[trigger] entries[j]).1))
}

/// Command: register a batch of keybinds given by key names, in order. The
/// batch is not transactional: entries before the first one with an unknown
/// key name stay applied, that entry and the rest are dropped, and the first
/// unknown name is reported.
#[verifier::loop_isolation(false)]
pub fn add_keybinds_batch(
    manager: &mut KeybindManager,
    keybinds_data: Vec<(String, Vec<String>, String)>,
) -> (r: Result<(), KeybindError>)
    requires
        old(manager).wf(),
        forall|i: int|
            0 <= i < keybinds_data@.len() ==> (#[trigger] keybinds_data@[i]).1@.len() > 0,
    ensures
        final(manager).wf(),
        final(manager).is_enabled() == old(manager).is_enabled(),
        final(manager).binds() == apply_named_batch(
            old(manager).binds(),
            named_entry_views(keybinds_data@),
        ),
        batch_ok(named_entry_views(keybinds_data@)) ==> r is Ok,
        !batch_ok(named_entry_views(keybinds_data@)) ==> (
        r matches Err(KeybindError::UnknownKey(n)) && batch_first_unknown(
            named_entry_views(keybinds_data@),
            n@,
        )),
{
    let ghost all = named_entry_views(keybinds_data@);
    let mut rest = keybinds_data;
    let ghost mut k: int = 0;
    proof {
        assert(all.skip(0) =~= all);
    }
    while rest.len() > 0
        invariant
            manager.wf(),
            manager.is_enabled() == old(manager).is_enabled(),
            forall|i: int| 0 <= i < rest@.len() ==> (#[trigger] rest@[i]).1@.len() > 0,
            0 <= k <= all.len(),
            rest@.len() == all.len() - k,
            named_entry_views(rest@) == all.skip(k),
            forall|j: int| 0 <= j < k ==> all_known((#[trigger] all[j]).1),
            apply_named_batch(manager.binds(), all.skip(k)) == apply_named_batch(
                old(manager).binds(),
                all,
            ),
        decreases rest@.len(),
    {
        let ghost prev_rest = rest@;
        let ghost binds_before = manager.binds();
        let (id, key_names, action) = rest.remove(0);
        proof {
            assert(named_entry_views(prev_rest)[0] == all[k]);
            assert(all[k] == (id@, key_names.deep_view(), action@));
            assert(named_entry_views(rest@) =~= named_entry_views(prev_rest).drop_first());
            assert(named_entry_views(rest@) =~= all.skip(k + 1)) by {
                assert(named_entry_views(prev_rest) == all.skip(k));
                assert(all.skip(k).drop_first() =~= all.skip(k + 1));
            }
        }
        match add_keybind(manager, id, key_names, action) {
            Ok(()) => {
                proof {
                    assert(all_known(all[k].1));
                    assert(apply_named_batch(binds_before, all.skip(k)) == apply_named_batch(
                        upsert(
                            binds_before,
                            bind_view(all[k].0, resolved_keys(all[k].1), all[k].2),
                        ),
                        all.skip(k).drop_first(),
                    ));
                    k = k + 1;
                }
            },
            Err(e) => {
                proof {
                    assert(!all_known(all[k].1));
                    assert(apply_named_batch(binds_before, all.skip(k)) == binds_before);
                    assert(!batch_ok(all));
                    assert(e matches KeybindError::UnknownKey(n) && is_first_unknown(
                        all[k].1,
                        n@,
                    ));
                    assert(e matches KeybindError::UnknownKey(n) && batch_first_unknown(
                        all,
                        n@,
                    ));
                }
                return Err(e);
            },
        }
    }
    proof {
        assert(k == all.len());
        assert(all.skip(k) =~= Seq::<(Seq<char>, Seq<Seq<char>>, Seq<char>)>::empty());
        assert(apply_named_batch(manager.binds(), all.skip(k)) == manager.binds());
        assert(batch_ok(all));
    }
    Ok(())
}

/// Command: the manual trigger path, distinct from the automatic hook.
/// Returns the confirmation string for the given shortcut name.
pub fn handle_shortcut_action(shortcut_name: &str) -> (m: String)
    ensures
        m@ == "Shortcut "@ + shortcut_name@ + " triggered successfully"@,
{
    String::from_str("Shortcut ").concat(shortcut_name).concat(" triggered successfully")
}

} // verus!
