//! Catalog selection helpers: the interactive picker shows entries by
//! their user-id string and hands back the chosen names, so the toggle
//! and copy-id flows need the catalog cut down to the enabled entries,
//! the names of those entries, and the keygrips or key ids behind a
//! list of chosen names. Names not in the catalog are passed over.

use vstd::prelude::*;

use crate::catalog::{catalog_view, KeyIdentityView, SshKeyInfo};
use crate::reconcile::vec_contains_str;
use crate::strutil::str_eq;

verus! {

/// The first catalog entry carrying the user-id string `nm`.
pub open spec fn first_match(cat: Seq<KeyIdentityView>, nm: Seq<char>) -> Option<KeyIdentityView>
    decreases cat.len(),
{
    if cat.len() == 0 {
        None
    } else if cat[0].main_name == nm {
        Some(cat[0])
    } else {
        first_match(cat.drop_first(), nm)
    }
}

proof fn lemma_first_match_at(cat: Seq<KeyIdentityView>, nm: Seq<char>, i: int)
    requires
        0 <= i < cat.len(),
        cat[i].main_name == nm,
        forall|j: int| 0 <= j < i ==> cat[j].main_name != nm,
    ensures
        first_match(cat, nm) == Some(cat[i]),
    decreases i,
{
    if i > 0 {
        lemma_first_match_at(cat.drop_first(), nm, i - 1);
    }
}

proof fn lemma_first_match_none(cat: Seq<KeyIdentityView>, nm: Seq<char>)
    requires
        forall|j: int| 0 <= j < cat.len() ==> cat[j].main_name != nm,
    ensures
        first_match(cat, nm) is None,
    decreases cat.len(),
{
    if cat.len() > 0 {
        lemma_first_match_none(cat.drop_first(), nm);
    }
}

/// The position of the first catalog entry whose user-id string equals
/// `name`.
pub fn find_by_name(catalog: &Vec<SshKeyInfo>, name: &str) -> (r: Option<usize>)
    ensures
        match r {
            Some(i) => i < catalog@.len() && catalog@[i as int]@.main_name == name@ && forall|
                j: int,
            | 0 <= j < i ==> catalog@[j]@.main_name != name@,
            None => forall|j: int| 0 <= j < catalog@.len() ==> catalog@[j]@.main_name != name@,
        },
{
    let n = catalog.len();
    for i in 0..n
        invariant
            n == catalog@.len(),
            forall|j: int| 0 <= j < i ==> catalog@[j]@.main_name != name@,
    {
        if str_eq(catalog[i].main_name.as_str(), name) {
            return Some(i);
        }
    }
    None
}

/// The keygrip behind each chosen name: for a name with a catalog
/// entry, the authentication keygrip of its first entry; names without
/// one are passed over.
pub fn keygrips_for_names(catalog: &Vec<SshKeyInfo>, names: &Vec<String>) -> (r: Vec<String>)
    ensures
        r.deep_view() == names.deep_view().filter_map(
            |nm: Seq<char>| match first_match(catalog_view(catalog@), nm) {
                Some(k) => Some(k.auth_keygrip),
                None => None,
            },
        ),
{
    let ghost f = |nm: Seq<char>| match first_match(catalog_view(catalog@), nm) {
        Some(k) => Some(k.auth_keygrip),
        None => None,
    };
    let n = names.len();
    let mut out: Vec<String> = Vec::new();
    proof {
        assert(out.deep_view() =~~= names.deep_view().take(0).filter_map(f));
    }
    for i in 0..n
        invariant
            n == names@.len(),
            out.deep_view() == names.deep_view().take(i as int).filter_map(f),
            f == (|nm: Seq<char>| match first_match(catalog_view(catalog@), nm) {
                Some(k) => Some(k.auth_keygrip),
                None => None,
            }),
    {
        let ghost pre = out.deep_view();
        let ghost nm = names.deep_view()[i as int];
        match find_by_name(catalog, names[i].as_str()) {
            Some(j) => {
                out.push(catalog[j].auth_keygrip.clone());
                proof {
                    lemma_first_match_at(catalog_view(catalog@), nm, j as int);
                    assert(out.deep_view() =~~= pre + seq![catalog@[j as int]@.auth_keygrip]);
                }
            },
            None => {
                proof {
                    lemma_first_match_none(catalog_view(catalog@), nm);
                }
            },
        }
        proof {
            assert(names.deep_view().take(i + 1).drop_last() =~~= names.deep_view().take(
                i as int,
            ));
            assert(names.deep_view().take(i + 1).last() == nm);
        }
    }
    proof {
        assert(names.deep_view().take(n as int) =~~= names.deep_view());
    }
    out
}

/// The certification key id behind each chosen name: for a name with a
/// catalog entry, the main key id of its first entry; names without one
/// are passed over.
pub fn key_ids_for_names(catalog: &Vec<SshKeyInfo>, names: &Vec<String>) -> (r: Vec<String>)
    ensures
        r.deep_view() == names.deep_view().filter_map(
            |nm: Seq<char>| match first_match(catalog_view(catalog@), nm) {
                Some(k) => Some(k.main_key_id),
                None => None,
            },
        ),
{
    let ghost f = |nm: Seq<char>| match first_match(catalog_view(catalog@), nm) {
        Some(k) => Some(k.main_key_id),
        None => None,
    };
    let n = names.len();
    let mut out: Vec<String> = Vec::new();
    proof {
        assert(out.deep_view() =~~= names.deep_view().take(0).filter_map(f));
    }
    for i in 0..n
        invariant
            n == names@.len(),
            out.deep_view() == names.deep_view().take(i as int).filter_map(f),
            f == (|nm: Seq<char>| match first_match(catalog_view(catalog@), nm) {
                Some(k) => Some(k.main_key_id),
                None => None,
            }),
    {
        let ghost pre = out.deep_view();
        let ghost nm = names.deep_view()[i as int];
        match find_by_name(catalog, names[i].as_str()) {
            Some(j) => {
                out.push(catalog[j].main_key_id.clone());
                proof {
                    lemma_first_match_at(catalog_view(catalog@), nm, j as int);
                    assert(out.deep_view() =~~= pre + seq![catalog@[j as int]@.main_key_id]);
                }
            },
            None => {
                proof {
                    lemma_first_match_none(catalog_view(catalog@), nm);
                }
            },
        }
        proof {
            assert(names.deep_view().take(i + 1).drop_last() =~~= names.deep_view().take(
                i as int,
            ));
            assert(names.deep_view().take(i + 1).last() == nm);
        }
    }
    proof {
        assert(names.deep_view().take(n as int) =~~= names.deep_view());
    }
    out
}

/// The catalog entries whose authentication keygrip is in the enabled
/// set, in catalog order.
pub fn enabled_entries(catalog: &Vec<SshKeyInfo>, enabled: &Vec<String>) -> (r: Vec<SshKeyInfo>)
    ensures
        catalog_view(r@) == catalog_view(catalog@).filter(
            |k: KeyIdentityView| enabled.deep_view().contains(k.auth_keygrip),
        ),
{
    let ghost pred = |k: KeyIdentityView| enabled.deep_view().contains(k.auth_keygrip);
    let n = catalog.len();
    let mut out: Vec<SshKeyInfo> = Vec::new();
    proof {
        reveal(Seq::filter);
        assert(catalog_view(out@) =~~= catalog_view(catalog@).take(0).filter(pred));
    }
    for i in 0..n
        invariant
            n == catalog@.len(),
            catalog_view(out@) == catalog_view(catalog@).take(i as int).filter(pred),
            pred == (|k: KeyIdentityView| enabled.deep_view().contains(k.auth_keygrip)),
    {
        let ghost pre = catalog_view(out@);
        if vec_contains_str(enabled, catalog[i].auth_keygrip.as_str()) {
            out.push(catalog[i].duplicate());
            proof {
                assert(catalog_view(out@) =~~= pre.push(catalog@[i as int]@));
            }
        }
        proof {
            reveal(Seq::filter);
            assert(catalog_view(catalog@).take(i + 1).drop_last() =~~= catalog_view(
                catalog@,
            ).take(i as int));
            assert(catalog_view(catalog@).take(i + 1).last() == catalog@[i as int]@);
        }
    }
    proof {
        assert(catalog_view(catalog@).take(n as int) =~~= catalog_view(catalog@));
    }
    out
}

/// The user-id strings of the catalog entries whose authentication
/// keygrip is in the enabled set: what an interactive picker should show
/// as already selected.
pub fn preselected_names(catalog: &Vec<SshKeyInfo>, enabled: &Vec<String>) -> (r: Vec<String>)
    ensures
        r.deep_view() == catalog_view(catalog@).filter(
            |k: KeyIdentityView| enabled.deep_view().contains(k.auth_keygrip),
        ).map_values(|k: KeyIdentityView| k.main_name),
{
    let picked = enabled_entries(catalog, enabled);
    let n = picked.len();
    let mut out: Vec<String> = Vec::new();
    proof {
        assert(out.deep_view() =~~= catalog_view(picked@).take(0).map_values(
            |k: KeyIdentityView| k.main_name,
        ));
    }
    for i in 0..n
        invariant
            n == picked@.len(),
            out.deep_view() == catalog_view(picked@).take(i as int).map_values(
                |k: KeyIdentityView| k.main_name,
            ),
            catalog_view(picked@) == catalog_view(catalog@).filter(
                |k: KeyIdentityView| enabled.deep_view().contains(k.auth_keygrip),
            ),
    {
        let ghost pre = out.deep_view();
        out.push(picked[i].main_name.clone());
        proof {
            assert(out.deep_view() =~~= pre.push(catalog_view(picked@)[i as int].main_name));
            assert(catalog_view(picked@).take(i + 1).map_values(
                |k: KeyIdentityView| k.main_name,
            ) =~~= pre.push(catalog_view(picked@)[i as int].main_name));
        }
    }
    proof {
        assert(catalog_view(picked@).take(n as int) =~~= catalog_view(picked@));
    }
    out
}

} // verus!
