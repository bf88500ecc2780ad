//! The cross-language handle registry: the sole mutation surface the
//! FFI boundary sees.  Native objects are stored behind opaque `u64`
//! handles; a handle resolves to exactly one live object, and once
//! deleted it never resolves again.
//!
//! The registry wraps a concurrent, generation-checked handle map so
//! that distinct handles can be used from distinct host threads without
//! contending on one global lock; its observable behaviour is specified
//! through [`registry_contents`], the map of live handles.

use vstd::prelude::*;

use crate::ping_type::PingType;

verus! {

/// A concurrency-safe registry of ping types behind opaque handles.
///
/// Holds an `ffi_support::ConcurrentHandleMap`, which serializes
/// writes per slot and detects stale or foreign handles through a
/// generation check.
#[verifier::external_body]
pub struct PingTypeRegistry {
    map: ffi_support::ConcurrentHandleMap<PingType>,
}

/// The live contents of a registry: which handle currently resolves to
/// which ping type.
pub uninterp spec fn registry_contents(registry: PingTypeRegistry) -> Map<u64, PingType>;

/// Whether a registry's contents resolve no handle at all.
pub open spec fn registry_is_empty(contents: Map<u64, PingType>) -> bool {
    contents == Map::<u64, PingType>::empty()
}

/// Whether a registry's contents are finite and count exactly `n`
/// live handles.
pub open spec fn registry_len_is(contents: Map<u64, PingType>, n: usize) -> bool {
    contents.dom().finite() && contents.dom().len() == n
}

/// What resolving a handle hands back: the ping type stored under it,
/// or the handle map's own error.
pub type ResolvedPingType = Result<PingType, ffi_support::HandleError>;

/// The wrapped handle map refuses to grow past a fixed maximum
/// capacity and aborts the process instead of failing gracefully.
/// Keeping strictly fewer live entries than this bound keeps every
/// insertion safe, with room to spare below the map's own limit.
pub const REGISTRY_CAPACITY: usize = 32765;

impl PingTypeRegistry {
    /// Creates an empty registry.
    ///
    /// Relies on `ffi_support::ConcurrentHandleMap::new`: the fresh map
    /// holds no entries, so no handle resolves.
    #[verifier::external_body]
    pub fn new() -> (fresh: PingTypeRegistry)
        ensures
            registry_is_empty(registry_contents(fresh)),
    {
        PingTypeRegistry { map: ffi_support::ConcurrentHandleMap::new() }
    }

    /// Counts the live entries of the registry.
    ///
    /// Relies on `ffi_support::ConcurrentHandleMap::len`: the number
    /// of occupied slots, which is the number of live handles.
    #[verifier::external_body]
    pub fn len(&self) -> (n: usize)
        ensures
            registry_len_is(registry_contents(*self), n),
    {
        self.map.len()
    }

    /// Stores a ping type and returns the freshly allocated handle.
    /// The registry must not be full: at its capacity the wrapped map
    /// would abort instead of degrading.
    ///
    /// Relies on `ffi_support::ConcurrentHandleMap::insert`: the value
    /// goes into a slot no live handle points at, and the encoded
    /// handle carries a fixed non-zero tag in its upper bits, so it is
    /// never 0 and never collides with a live handle.
    #[verifier::external_body]
    pub fn insert(&mut self, ping: PingType) -> (handle: u64)
        requires
            registry_contents(*old(self)).dom().finite(),
            registry_contents(*old(self)).dom().len() < REGISTRY_CAPACITY,
        ensures
            handle != 0,
            !registry_contents(*old(self)).dom().contains(handle),
            registry_contents(*final(self)) == registry_contents(*old(self)).insert(handle, ping),
    {
        self.map.insert(ping).into_u64()
    }

    /// Resolves a handle to a copy of the ping type stored under it.
    ///
    /// Relies on `ffi_support::ConcurrentHandleMap::get_u64`: a live
    /// handle resolves to the value stored under it; a stale, foreign
    /// or malformed handle is refused with a handle error.
    #[verifier::external_body]
    pub fn get(&self, handle: u64) -> (result: ResolvedPingType)
        ensures
            result is Ok <==> registry_contents(*self).dom().contains(handle),
            result matches Ok(ping) ==> ping == registry_contents(*self)[handle],
    {
        self.map.get_u64(handle, |ping: &PingType| -> Result<PingType, ffi_support::HandleError> {
            Ok(ping.clone())
        })
    }

    /// Deletes the entry a handle points at, reporting whether there
    /// was one.  A stale or unknown handle leaves the registry as it
    /// is, so deleting twice is a no-op, not a fault.
    ///
    /// Relies on `ffi_support::ConcurrentHandleMap::delete_u64`: a live
    /// handle's slot is freed and its generation bumped; anything else
    /// is refused with an error and no change to the map.
    #[verifier::external_body]
    pub fn remove(&mut self, handle: u64) -> (removed: bool)
        ensures
            removed == registry_contents(*old(self)).dom().contains(handle),
            registry_contents(*final(self)) == registry_contents(*old(self)).remove(handle),
    {
        self.map.delete_u64(handle).is_ok()
    }
}

/// A handle fresh from an insertion resolves to the inserted value;
/// once removed, it never resolves again.
pub proof fn lemma_handle_lifecycle(contents: Map<u64, PingType>, handle: u64, ping: PingType)
    requires
        !contents.dom().contains(handle),
    ensures
        contents.insert(handle, ping)[handle] == ping,
        !contents.insert(handle, ping).remove(handle).dom().contains(handle),
{
}

/// The contents of a registry after a series of insertions, first
/// entry first.
pub open spec fn after_insertions(
    contents: Map<u64, PingType>,
    entries: Seq<(u64, PingType)>,
) -> Map<u64, PingType>
    decreases entries.len(),
{
    if entries.len() == 0 {
        contents
    } else {
        after_insertions(contents.insert(entries[0].0, entries[0].1), entries.drop_first())
    }
}

/// Whether each handle of a series of insertions was fresh when it was
/// issued, as [`PingTypeRegistry::insert`] guarantees of its result.
pub open spec fn handles_fresh(contents: Map<u64, PingType>, entries: Seq<(u64, PingType)>) -> bool
    decreases entries.len(),
{
    if entries.len() == 0 {
        true
    } else {
        !contents.dom().contains(entries[0].0) && handles_fresh(
            contents.insert(entries[0].0, entries[0].1),
            entries.drop_first(),
        )
    }
}

/// Inserting further entries never drops a live handle: one that no
/// later entry reuses keeps its value.
proof fn lemma_after_insertions_preserves(
    contents: Map<u64, PingType>,
    entries: Seq<(u64, PingType)>,
    handle: u64,
)
    requires
        contents.dom().contains(handle),
        forall|j: int| 0 <= j < entries.len() ==> (#[trigger] entries[j]).0 != handle,
    ensures
        after_insertions(contents, entries).dom().contains(handle),
        after_insertions(contents, entries)[handle] == contents[handle],
    decreases entries.len(),
{
    if entries.len() > 0 {
        let next = contents.insert(entries[0].0, entries[0].1);
        assert forall|j: int| 0 <= j < entries.drop_first().len() implies (#[trigger] entries
            .drop_first()[j]).0 != handle by {
            assert(entries.drop_first()[j] == entries[j + 1]);
        }
        lemma_after_insertions_preserves(next, entries.drop_first(), handle);
    }
}

/// Handles issued fresh later never collide with a handle already
/// live.
proof fn lemma_fresh_handles_avoid_live(
    contents: Map<u64, PingType>,
    entries: Seq<(u64, PingType)>,
    handle: u64,
)
    requires
        handles_fresh(contents, entries),
        contents.dom().contains(handle),
    ensures
        forall|j: int| 0 <= j < entries.len() ==> (#[trigger] entries[j]).0 != handle,
    decreases entries.len(),
{
    if entries.len() > 0 {
        let next = contents.insert(entries[0].0, entries[0].1);
        lemma_fresh_handles_avoid_live(next, entries.drop_first(), handle);
        assert forall|j: int| 0 <= j < entries.len() implies (#[trigger] entries[j]).0
            != handle by {
            if j > 0 {
                assert(entries.drop_first()[j - 1] == entries[j]);
            }
        }
    }
}

/// Any number of insertions with fresh handles yields pairwise
/// distinct handles, each of which independently resolves to the value
/// inserted under it.
pub proof fn lemma_insertions_yield_distinct_resolvable_handles(
    contents: Map<u64, PingType>,
    entries: Seq<(u64, PingType)>,
)
    requires
        handles_fresh(contents, entries),
    ensures
        forall|i: int, j: int|
            #![trigger entries[i], entries[j]]
            0 <= i < entries.len() && 0 <= j < entries.len() && i != j ==> entries[i].0
                != entries[j].0,
        forall|i: int|
            0 <= i < entries.len() ==> after_insertions(contents, entries).dom().contains(
                (#[trigger] entries[i]).0,
            ) && after_insertions(contents, entries)[entries[i].0] == entries[i].1,
    decreases entries.len(),
{
    if entries.len() > 0 {
        let handle = entries[0].0;
        let next = contents.insert(handle, entries[0].1);
        let rest = entries.drop_first();
        lemma_insertions_yield_distinct_resolvable_handles(next, rest);
        lemma_fresh_handles_avoid_live(next, rest, handle);
        lemma_after_insertions_preserves(next, rest, handle);
        assert forall|i: int, j: int|
            #![trigger entries[i], entries[j]]
            0 <= i < entries.len() && 0 <= j < entries.len() && i != j implies entries[i].0
            != entries[j].0 by {
            if i > 0 && j > 0 {
                assert(rest[i - 1] == entries[i]);
                assert(rest[j - 1] == entries[j]);
            } else if i == 0 {
                assert(rest[j - 1] == entries[j]);
            } else {
                assert(rest[i - 1] == entries[i]);
            }
        }
        assert forall|i: int| 0 <= i < entries.len() implies after_insertions(
            contents,
            entries,
        ).dom().contains((#[trigger] entries[i]).0) && after_insertions(
            contents,
            entries,
        )[entries[i].0] == entries[i].1 by {
            assert(after_insertions(contents, entries) == after_insertions(next, rest));
            if i == 0 {
                assert(next[handle] == entries[0].1);
            } else {
                assert(rest[i - 1] == entries[i]);
            }
        }
    }
}

/// Deleting a handle twice is the same as deleting it once: the second
/// removal finds nothing and changes nothing.
pub proof fn lemma_double_destroy_no_op(contents: Map<u64, PingType>, handle: u64)
    ensures
        contents.remove(handle).remove(handle) == contents.remove(handle),
        !contents.remove(handle).dom().contains(handle),
{
    assert(contents.remove(handle).remove(handle) =~= contents.remove(handle));
}

} // verus!
