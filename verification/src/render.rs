//! Plain-text rendering of catalog entries: the listing line and the
//! labeled detail block a lookup prints. The caller only writes the
//! returned strings out.

use vstd::prelude::*;

use crate::catalog::SshKeyInfo;

verus! {

/// One listing line: the user id, preceded by the key id when asked
/// for.
pub fn list_line(info: &SshKeyInfo, include_key_id: bool) -> (r: String)
    ensures
        include_key_id ==> r@ == info.main_key_id@ + " "@ + info.main_name@,
        !include_key_id ==> r@ == info.main_name@,
{
    if include_key_id {
        let mut out = String::new();
        out.append(info.main_key_id.as_str());
        out.append(" ");
        out.append(info.main_name.as_str());
        proof {
            assert(out@ =~= info.main_key_id@ + " "@ + info.main_name@);
        }
        out
    } else {
        info.main_name.clone()
    }
}

/// The labeled fields of one entry, as the lookup prints them.
pub fn public_key_details(info: &SshKeyInfo) -> (r: String)
    ensures
        r@ == "Key: "@ + info.main_key_id@ + "\nName: "@ + info.main_name@
            + "\nFingerprint (Auth Subkey): "@ + info.auth_fingerprint@
            + "\nKeygrip (Auth Subkey): "@ + info.auth_keygrip@,
{
    let mut out = String::new();
    out.append("Key: ");
    out.append(info.main_key_id.as_str());
    out.append("\nName: ");
    out.append(info.main_name.as_str());
    out.append("\nFingerprint (Auth Subkey): ");
    out.append(info.auth_fingerprint.as_str());
    out.append("\nKeygrip (Auth Subkey): ");
    out.append(info.auth_keygrip.as_str());
    proof {
        assert(out@ =~= "Key: "@ + info.main_key_id@ + "\nName: "@ + info.main_name@
            + "\nFingerprint (Auth Subkey): "@ + info.auth_fingerprint@
            + "\nKeygrip (Auth Subkey): "@ + info.auth_keygrip@);
    }
    out
}

/// The message for a lookup value that matched no entry.
pub fn no_match_message(hex: &str) -> (r: String)
    ensures
        r@ == "Did not find a match for the hex string: 0x"@ + hex@,
{
    let mut out = String::new();
    out.append("Did not find a match for the hex string: 0x");
    out.append(hex);
    proof {
        assert(out@ =~= "Did not find a match for the hex string: 0x"@ + hex@);
    }
    out
}

} // verus!
