//! A live, queryable view of a flat, identifier-addressed document store as a
//! navigable tree: sidecar records are parsed into typed elements, held in a
//! concurrent index keyed by identifier, kept fresh by a debounced change
//! watcher, and queried through a collision-aware path resolver.
use vstd::prelude::*;
use vstd::string::StringExecFns;

pub mod element;
pub mod ids;
pub mod index;
pub mod laws;
pub mod records;
pub mod resolve;
pub mod watch;

verus! {

/// Default document directory of the store: the on-device location when
/// running on the tablet itself, a local sample directory otherwise.
pub fn default_doc_path(on_device: bool) -> (r: String)
    ensures
        on_device ==> r@ == "/home/root/.local/share/remarkable/xochitl/"@,
        !on_device ==> r@ == "./samples/v6/"@,
{
    if on_device {
        String::from_str("/home/root/.local/share/remarkable/xochitl/")
    } else {
        String::from_str("./samples/v6/")
    }
}

} // verus!
