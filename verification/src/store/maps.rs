//! The concurrent maps of the store.
//!
//! `DashMap` changes under a shared reference. The store keeps its maps to itself
//! and changes them only under an exclusive reference, so that what a map holds
//! before and after a call is well defined, and no guard into a map is alive while
//! another call locks it.

use crate::store::session::{ActiveSession, VoiceSession, VoiceSessionView};
use dashmap::DashMap;
use vstd::prelude::*;

verus! {

/// The concurrent map of the `dashmap` crate.
#[verifier::external_type_specification]
#[verifier::external_body]
#[verifier::reject_recursive_types(K)]
#[verifier::reject_recursive_types(V)]
#[verifier::reject_recursive_types(S)]
pub struct ExDashMap<K, V, S>(dashmap::DashMap<K, V, S>);

/// What a map of pending authorizations holds.
pub uninterp spec fn pending_entries(m: DashMap<String, u64>) -> Map<Seq<char>, u64>;

/// What a map of active sessions holds.
pub uninterp spec fn active_entries(m: DashMap<u64, ActiveSession>) -> Map<u64, ActiveSession>;

/// What a map of voice sessions holds.
pub uninterp spec fn voice_entries(m: DashMap<u64, VoiceSession>) -> Map<u64, VoiceSessionView>;

/// `DashMap::new` makes an empty map.
#[verifier::external_body]
pub(crate) fn new_pending() -> (m: DashMap<String, u64>)
    ensures
        (pending_entries(m) == Map::<Seq<char>, u64>::empty()),
{
    DashMap::new()
}

/// `DashMap::insert` sets the value of `key` and returns the one it had.
#[verifier::external_body]
pub(crate) fn insert_pending(m: &mut DashMap<String, u64>, key: String, value: u64) -> (replaced:
    Option<u64>)
    ensures
        pending_entries(*final(m)) == pending_entries(*old(m)).insert(key@, value),
        replaced == pending_entries(*old(m)).get(key@),
{
    m.insert(key, value)
}

/// `DashMap::remove` takes `key` out of the map and returns the value it had.
#[verifier::external_body]
pub(crate) fn remove_pending(m: &mut DashMap<String, u64>, key: &str) -> (removed: Option<u64>)
    ensures
        pending_entries(*final(m)) == pending_entries(*old(m)).remove(key@),
        removed == pending_entries(*old(m)).get(key@),
{
    m.remove(key).map(|entry| entry.1)
}

/// `DashMap::new` makes an empty map.
#[verifier::external_body]
pub(crate) fn new_active() -> (m: DashMap<u64, ActiveSession>)
    ensures
        (active_entries(m) == Map::<u64, ActiveSession>::empty()),
{
    DashMap::new()
}

/// `DashMap::contains_key` tells whether `key` has a value.
#[verifier::external_body]
pub(crate) fn contains_active(m: &DashMap<u64, ActiveSession>, key: u64) -> (found: bool)
    ensures
        found == active_entries(*m).contains_key(key),
{
    m.contains_key(&key)
}

/// `DashMap::get` finds the value of `key`; it is copied, and the guard around it
/// given back at once.
#[verifier::external_body]
pub(crate) fn get_active(m: &DashMap<u64, ActiveSession>, key: u64) -> (found: Option<
    ActiveSession,
>)
    ensures
        found == active_entries(*m).get(key),
{
    m.get(&key).map(|entry| *entry.value())
}

/// `DashMap::insert` sets the value of `key` and returns the one it had.
#[verifier::external_body]
pub(crate) fn insert_active(
    m: &mut DashMap<u64, ActiveSession>,
    key: u64,
    value: ActiveSession,
) -> (replaced: Option<ActiveSession>)
    ensures
        active_entries(*final(m)) == active_entries(*old(m)).insert(key, value),
        replaced == active_entries(*old(m)).get(key),
{
    m.insert(key, value)
}

/// `DashMap::remove` takes `key` out of the map and returns the value it had.
#[verifier::external_body]
pub(crate) fn remove_active(m: &mut DashMap<u64, ActiveSession>, key: u64) -> (removed: Option<
    ActiveSession,
>)
    ensures
        active_entries(*final(m)) == active_entries(*old(m)).remove(key),
        removed == active_entries(*old(m)).get(key),
{
    m.remove(&key).map(|entry| entry.1)
}

/// What a voice session that may be missing says.
pub open spec fn session_view(session: Option<VoiceSession>) -> Option<VoiceSessionView> {
    match session {
        Some(session) => Some(session@),
        None => None,
    }
}

/// `DashMap::new` makes an empty map.
#[verifier::external_body]
pub(crate) fn new_voice() -> (m: DashMap<u64, VoiceSession>)
    ensures
        (voice_entries(m) == Map::<u64, VoiceSessionView>::empty()),
{
    DashMap::new()
}

/// `DashMap::insert` sets the value of `key` and returns the one it had.
#[verifier::external_body]
pub(crate) fn insert_voice(
    m: &mut DashMap<u64, VoiceSession>,
    key: u64,
    value: VoiceSession,
) -> (replaced: Option<VoiceSession>)
    ensures
        voice_entries(*final(m)) == voice_entries(*old(m)).insert(key, value@),
        session_view(replaced) == voice_entries(*old(m)).get(key),
{
    m.insert(key, value)
}

/// `DashMap::remove` takes `key` out of the map and returns the value it had.
#[verifier::external_body]
pub(crate) fn remove_voice(m: &mut DashMap<u64, VoiceSession>, key: u64) -> (removed: Option<
    VoiceSession,
>)
    ensures
        voice_entries(*final(m)) == voice_entries(*old(m)).remove(key),
        session_view(removed) == voice_entries(*old(m)).get(key),
{
    m.remove(&key).map(|entry| entry.1)
}

} // verus!
