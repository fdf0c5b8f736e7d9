//! What the Bluetooth object-push transfer computes on its own: the
//! device address behind a BlueZ object path, and whether a device offers
//! object push.

use vstd::prelude::*;
use crate::text::{replace_all, replaced};

verus! {

/// The prefix of the object paths BlueZ gives devices of the first
/// adapter.
pub open spec fn device_path_prefix() -> Seq<char> {
    "/org/bluez/hci0/dev_"@
}

/// The address of the device at the BlueZ object path `p`: the path
/// without its prefix, with `:` for each `_`.
pub open spec fn address_of_path(p: Seq<char>) -> Seq<char> {
    replaced(replaced(p, device_path_prefix(), Seq::empty()), "_"@, ":"@)
}

/// The address of the device at the BlueZ object path `object_path`, as
/// the OBEX client expects it.
pub fn device_address(object_path: &str) -> (a: String)
    ensures
        a@ == address_of_path(object_path@),
{
    proof {
        reveal_strlit("/org/bluez/hci0/dev_");
        reveal_strlit("_");
        reveal_strlit("");
        assert(""@ =~= Seq::<char>::empty());
    }
    let stripped = replace_all(object_path, "/org/bluez/hci0/dev_", "");
    replace_all(stripped.as_str(), "_", ":")
}

/// The UUID of the object-push service.
pub open spec fn obex_push_uuid() -> Seq<char> {
    "00001105-0000-1000-8000-00805f9b34fb"@
}

/// Whether a device offering the services `uuids` can receive files by
/// object push.
pub fn supports_object_push(uuids: &Vec<String>) -> (r: bool)
    ensures
        r <==> exists|i: int| 0 <= i < uuids@.len() && #[trigger] uuids@[i]@ == obex_push_uuid(),
{
    let push = "00001105-0000-1000-8000-00805f9b34fb".to_owned();
    let mut i: usize = 0;
    while i < uuids.len()
        invariant
            i <= uuids@.len(),
            push@ == obex_push_uuid(),
            forall|k: int| 0 <= k < i ==> #[trigger] uuids@[k]@ != obex_push_uuid(),
        decreases uuids.len() - i,
    {
        if uuids[i] == push {
            return true;
        }
        i = i + 1;
    }
    false
}

} // verus!
