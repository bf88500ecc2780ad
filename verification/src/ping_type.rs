//! Ping definitions and the boundary entry points that manage them
//! through opaque handles.

use vstd::prelude::*;
use vstd::string::StringExecFns;

use crate::error::{from_handle_error, Error, ErrorKind};
use crate::glean::{find_ping, Glean};
use crate::handles::{registry_contents, PingTypeRegistry};

verus! {

/// A single ping definition: its unique name and whether the client id
/// is included when it is assembled.  Immutable once built.
#[derive(Debug)]
pub struct PingType {
    /// The name of the ping.
    pub name: String,
    /// Whether the ping includes the client id when assembled.
    pub include_client_id: bool,
}

impl Clone for PingType {
    fn clone(&self) -> (ping: Self)
        ensures
            ping == *self,
    {
        PingType { name: self.name.clone(), include_client_id: self.include_client_id }
    }
}

impl PingType {
    /// Creates a new ping type.  This constructor is total: every pair
    /// of arguments yields a ping definition.
    pub fn new(name: &str, include_client_id: bool) -> (ping: PingType)
        ensures
            ping.name@ == name@,
            ping.include_client_id == include_client_id,
    {
        PingType { name: String::from_str(name), include_client_id }
    }
}

/// Creates a new ping type and stores it in the registry, returning
/// its handle.  The constructor is total, so as long as the registry
/// is not full this boundary call yields a valid, fresh, non-zero
/// handle, and every handle already live keeps resolving to what it
/// resolved to before.  A full registry degrades to the sentinel
/// invalid handle 0 instead of unwinding, leaving the registry as it
/// is.
pub fn glean_new_ping_type(
    registry: &mut PingTypeRegistry,
    ping_name: &str,
    include_client_id: u8,
) -> (handle: u64)
    ensures
        registry_contents(*old(registry)).dom().len() < crate::handles::REGISTRY_CAPACITY ==> ({
            &&& handle != 0
            &&& !registry_contents(*old(registry)).dom().contains(handle)
            &&& registry_contents(*final(registry)).dom() == registry_contents(
                *old(registry),
            ).dom().insert(handle)
            &&& registry_contents(*final(registry))[handle].name@ == ping_name@
            &&& registry_contents(*final(registry))[handle].include_client_id == (
            include_client_id != 0)
            &&& forall|h: u64|
                h != handle && #[trigger] registry_contents(*old(registry)).dom().contains(h)
                    ==> registry_contents(*final(registry))[h] == registry_contents(
                    *old(registry),
                )[h]
        }),
        registry_contents(*old(registry)).dom().len() >= crate::handles::REGISTRY_CAPACITY ==> (
        handle == 0 && *final(registry) == *old(registry)),
{
    if registry.len() < crate::handles::REGISTRY_CAPACITY {
        registry.insert(PingType::new(ping_name, include_client_id != 0))
    } else {
        0
    }
}

/// Deletes the ping type a handle points at.  A stale, unknown or
/// already-deleted handle is tolerated: the call is then a no-op, so
/// racy teardown from host-language finalizers never faults.
pub fn glean_destroy_ping_type(registry: &mut PingTypeRegistry, handle: u64)
    ensures
        registry_contents(*final(registry)) == registry_contents(*old(registry)).remove(handle),
{
    let _removed = registry.remove(handle);
}

/// Resolves a handle to a copy of its ping type: the fallible
/// cross-boundary accessor.  A stale or unknown handle never silently
/// yields data: it always surfaces as a `Handle` error.
pub fn get_ping_type(registry: &PingTypeRegistry, handle: u64) -> (result: Result<PingType, Error>)
    ensures
        registry_contents(*registry).dom().contains(handle) ==> result == Ok::<PingType, Error>(
            registry_contents(*registry)[handle],
        ),
        !registry_contents(*registry).dom().contains(handle) ==> (result matches Err(e) && e.kind
            == ErrorKind::Handle),
{
    match registry.get(handle) {
        Ok(ping) => Ok(ping),
        Err(e) => Err(from_handle_error(e)),
    }
}

/// Registers the ping type a handle points at into the engine's
/// catalog, under its name.  This boundary call is infallible: a stale
/// or unknown handle degrades to a no-op instead of an error.
pub fn glean_register_ping_type(
    glean: &mut Glean,
    registry: &PingTypeRegistry,
    ping_type_handle: u64,
)
    ensures
        final(glean).store == old(glean).store,
        registry_contents(*registry).dom().contains(ping_type_handle) ==> forall|n: Seq<char>|
            #[trigger] find_ping(final(glean).ping_types@, n) == if n == registry_contents(
                *registry,
            )[ping_type_handle].name@ {
                Some(registry_contents(*registry)[ping_type_handle])
            } else {
                find_ping(old(glean).ping_types@, n)
            },
        !registry_contents(*registry).dom().contains(ping_type_handle) ==> *final(glean) == *old(
            glean,
        ),
{
    match get_ping_type(registry, ping_type_handle) {
        Ok(ping) => glean.register_ping_type(&ping),
        Err(_e) => {},
    }
}

/// Whether the engine's catalog holds a ping type under the given
/// name, reported as 0 or 1 for the boundary.  A test-only query.
pub fn glean_test_has_ping_type(glean: &Glean, ping_name: &str) -> (present: u8)
    ensures
        present == 0 || present == 1,
        (present == 1) == find_ping(glean.ping_types@, ping_name@) is Some,
{
    match glean.get_ping_by_name(ping_name) {
        Some(_) => 1,
        None => 0,
    }
}

} // verus!
