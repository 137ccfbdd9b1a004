//! Channel identifiers: namespaced names of the form `namespace:path`.
//!
//! An identifier is a string; two identifiers are the same channel exactly
//! when they are the same string.

use vstd::prelude::*;
use vstd::string::StringExecFns;
use vstd::utf8::{encode_utf8, encode_utf8_decode_utf8};

verus! {

/// Namespace of the host game's own channels.
pub const MINECRAFT_NAMESPACE: &'static str = "minecraft";

/// Channel on which the host server names its brand, once the session is up.
pub const MINECRAFT_BRAND_CHANNEL: &'static str = "minecraft:brand";

/// Channel on which the host server advertises its plugin channels.
pub const MINECRAFT_REGISTER_CHANNEL: &'static str = "minecraft:register";

/// The text of the identifier with the given namespace and path.
pub open spec fn resource_location_text(namespace: Seq<char>, path: Seq<char>) -> Seq<char> {
    namespace + seq![':'] + path
}

/// The two channels of the host lie in its namespace, under the paths
/// `brand` and `register`.
pub proof fn lemma_minecraft_channels()
    ensures
        MINECRAFT_BRAND_CHANNEL@ == resource_location_text(MINECRAFT_NAMESPACE@, "brand"@),
        MINECRAFT_REGISTER_CHANNEL@ == resource_location_text(MINECRAFT_NAMESPACE@, "register"@),
{
    reveal_strlit("minecraft");
    reveal_strlit("brand");
    reveal_strlit("register");
    reveal_strlit("minecraft:brand");
    reveal_strlit("minecraft:register");
    assert(MINECRAFT_BRAND_CHANNEL@ =~= resource_location_text(MINECRAFT_NAMESPACE@, "brand"@));
    assert(MINECRAFT_REGISTER_CHANNEL@ =~= resource_location_text(
        MINECRAFT_NAMESPACE@,
        "register"@,
    ));
}

/// Builds the identifier `namespace:path`.
pub fn resource_location(namespace: &str, path: &str) -> (id: String)
    ensures
        id@ == resource_location_text(namespace@, path@),
{
    let mut id = String::from_str(namespace);
    id.append(":");
    id.append(path);
    proof {
        reveal_strlit(":");
        assert(":"@ =~= seq![':']);
    }
    id
}

/// Whether two byte slices hold the same bytes.
pub fn same_bytes(a: &[u8], b: &[u8]) -> (r: bool)
    ensures
        r == (a@ == b@),
{
    if a.len() != b.len() {
        return false;
    }
    let mut i: usize = 0;
    while i < a.len()
        invariant
            i <= a@.len(),
            a@.len() == b@.len(),
            forall|k: int| 0 <= k < i ==> a@[k] == b@[k],
        decreases a@.len() - i,
    {
        if a[i] != b[i] {
            return false;
        }
        i += 1;
    }
    assert(a@ =~= b@);
    true
}

/// Two texts are equal exactly when their UTF-8 forms are.
pub proof fn lemma_utf8_injective(a: Seq<char>, b: Seq<char>)
    ensures
        (encode_utf8(a) == encode_utf8(b)) == (a == b),
{
    encode_utf8_decode_utf8(a);
    encode_utf8_decode_utf8(b);
}

/// Whether two identifiers are the same: byte for byte, case and all.
pub fn same_identifier(a: &str, b: &str) -> (r: bool)
    ensures
        r == (a@ == b@),
{
    proof {
        lemma_utf8_injective(a@, b@);
    }
    same_bytes(a.as_bytes(), b.as_bytes())
}

} // verus!
