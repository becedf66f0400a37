//! Key creation support: the subkey parameter sets handed to the
//! keystore when a fresh certification key gets its signing, encryption
//! and authentication subkeys, and the parse that recovers the new key's
//! fingerprint from the creation run's output — the first `fpr` record
//! of the output's trailing block of non-empty lines.

use vstd::prelude::*;

use crate::agent::lines_of;
use crate::catalog::CatalogError;
use crate::records::{record_fields, record_type};
use crate::strutil::{lemma_split_on_len, split_str, str_eq, trim_ascii, trim_spec};

verus! {

/// The one key algorithm this workflow creates.
#[derive(Debug, Clone, Copy, PartialEq, Eq, Structural)]
pub enum KeyAlgo {
    ED25519,
}

impl KeyAlgo {
    /// The algorithm name for certification, signing and authentication
    /// keys.
    pub fn name(&self) -> (r: &'static str)
        ensures
            r@ == "ed25519"@,
    {
        "ed25519"
    }

    /// The matching algorithm name for encryption subkeys.
    pub fn encryption_name(&self) -> (r: &'static str)
        ensures
            r@ == "cv25519"@,
    {
        "cv25519"
    }
}

/// The argument list of a `quick add key` run: the key to extend, the
/// algorithm, the subkey kind, and no expiry.
pub fn add_sub_key_args(key_id: &str, key_algo: &str, key_type: &str) -> (r: Vec<String>)
    ensures
        r.deep_view() =~~= seq!["--quick-add-key"@, key_id@, key_algo@, key_type@, "never"@],
{
    let mut out: Vec<String> = Vec::new();
    out.push(String::from_str("--quick-add-key"));
    out.push(String::from_str(key_id));
    out.push(String::from_str(key_algo));
    out.push(String::from_str(key_type));
    out.push(String::from_str("never"));
    out
}

/// The arguments that add a signing subkey.
pub fn add_sub_key_sign(key_id: &str, key_algo: &KeyAlgo) -> (r: Vec<String>)
    ensures
        r.deep_view() =~~= seq!["--quick-add-key"@, key_id@, "ed25519"@, "sign"@, "never"@],
{
    add_sub_key_args(key_id, key_algo.name(), "sign")
}

/// The arguments that add an encryption subkey.
pub fn add_sub_key_encr(key_id: &str, key_algo: &KeyAlgo) -> (r: Vec<String>)
    ensures
        r.deep_view() =~~= seq!["--quick-add-key"@, key_id@, "cv25519"@, "encr"@, "never"@],
{
    add_sub_key_args(key_id, key_algo.encryption_name(), "encr")
}

/// The arguments that add an authentication subkey.
pub fn add_sub_key_auth(key_id: &str, key_algo: &KeyAlgo) -> (r: Vec<String>)
    ensures
        r.deep_view() =~~= seq!["--quick-add-key"@, key_id@, "ed25519"@, "auth"@, "never"@],
{
    add_sub_key_args(key_id, key_algo.name(), "auth")
}

/// Where the trailing block of non-empty lines starts: right after the
/// last empty line.
pub open spec fn tail_block_start(lines: Seq<Seq<char>>) -> int
    decreases lines.len(),
{
    if lines.len() == 0 {
        0
    } else if lines.last().len() == 0 {
        lines.len() as int
    } else {
        tail_block_start(lines.drop_last())
    }
}

proof fn lemma_tail_block_start_at(lines: Seq<Seq<char>>, k: int)
    requires
        0 <= k <= lines.len(),
        forall|j: int| k <= j < lines.len() ==> #[trigger] lines[j].len() > 0,
        k > 0 ==> lines[k - 1].len() == 0,
    ensures
        tail_block_start(lines) == k,
    decreases lines.len(),
{
    if lines.len() > 0 {
        if lines.last().len() == 0 {
            assert(k == lines.len());
        } else {
            assert(k <= lines.len() - 1);
            lemma_tail_block_start_at(lines.drop_last(), k);
        }
    }
}

/// The fingerprint a segment of creation-output lines reports: field 9
/// of its first `fpr` record. `None` of the outer option is a protocol
/// mismatch: some `fpr` record of the segment lacks field 9.
pub open spec fn created_in_segment(seg: Seq<Seq<char>>) -> Option<Option<Seq<char>>>
    decreases seg.len(),
{
    if seg.len() == 0 {
        Some(None)
    } else {
        let rec = record_fields(seg[0]);
        if record_type(seg[0]) == "fpr"@ {
            if rec.len() <= 9 {
                None
            } else {
                match created_in_segment(seg.drop_first()) {
                    None => None,
                    Some(_) => Some(Some(rec[9])),
                }
            }
        } else {
            created_in_segment(seg.drop_first())
        }
    }
}

/// The fingerprint a whole creation output reports: the one of its
/// trailing block of non-empty lines.
pub open spec fn created_key_fpr_spec(raw: Seq<char>) -> Option<Option<Seq<char>>> {
    let lines = lines_of(trim_spec(raw));
    created_in_segment(lines.skip(tail_block_start(lines)))
}

/// Recovers the fresh key's fingerprint from the raw output of a
/// `quick generate key` run: the first `fpr` record of the trailing
/// block of non-empty lines, or `None` when that block has no `fpr`
/// record. Fails exactly when an `fpr` record of that block lacks
/// field 9.
pub fn created_key_fingerprint(raw: &str) -> (r: Result<Option<String>, CatalogError>)
    ensures
        match r {
            Ok(v) => created_key_fpr_spec(raw@) == Some(crate::records::opt_view(v)),
            Err(_) => created_key_fpr_spec(raw@) is None,
        },
{
    proof {
        reveal_strlit("fpr");
    }
    let trimmed = trim_ascii(raw);
    let lines = split_str(trimmed, '\n');
    let ghost lsv = lines_of(trim_spec(raw@));
    let n = lines.len();

    // Strip each line's trailing carriage return up front.
    let mut stripped: Vec<String> = Vec::new();
    for i in 0..n
        invariant
            n == lines@.len(),
            stripped@.len() == i,
            forall|j: int| 0 <= j < i ==> stripped.deep_view()[j] == crate::agent::strip_cr(
                lines.deep_view()[j],
            ),
    {
        let ghost pre = stripped.deep_view();
        let line = lines[i].as_str();
        let ln = line.unicode_len();
        if ln > 0 && line.get_char(ln - 1) == '\r' {
            let s = line.substring_char(0, ln - 1);
            proof {
                assert(line@.subrange(0, line@.len() - 1) =~= line@.drop_last());
            }
            stripped.push(String::from_str(s));
        } else {
            stripped.push(lines[i].clone());
        }
        proof {
            assert(stripped.deep_view() =~~= pre.push(
                crate::agent::strip_cr(lines.deep_view()[i as int]),
            ));
        }
    }
    proof {
        assert(lsv =~~= stripped.deep_view());
    }

    // Find where the trailing block of non-empty lines starts.
    let mut start: usize = n;
    while start > 0 && !stripped[start - 1].as_str().is_empty()
        invariant
            0 <= start <= n,
            n == stripped@.len(),
            lsv =~~= stripped.deep_view(),
            forall|j: int| start <= j < n ==> #[trigger] lsv[j].len() > 0,
        decreases start,
    {
        start = start - 1;
    }
    proof {
        lemma_tail_block_start_at(lsv, start as int);
    }

    // Scan the block for its first fpr record.
    let ghost seg = lsv.skip(start as int);
    let mut result: Option<String> = None;
    proof {
        assert(seg.skip(0) =~~= seg);
    }
    let mut j: usize = start;
    while j < n
        invariant
            start <= j <= n,
            n == stripped@.len(),
            lsv == lines_of(trim_spec(raw@)),
            lsv =~~= stripped.deep_view(),
            tail_block_start(lsv) == start as int,
            seg == lsv.skip(start as int),
            match created_in_segment(seg.skip(j - start)) {
                None => created_in_segment(seg) is None,
                Some(r2) => created_in_segment(seg) == Some(
                    if crate::records::opt_view(result) is Some {
                        crate::records::opt_view(result)
                    } else {
                        r2
                    },
                ),
            },
        decreases n - j,
    {
        proof {
            reveal_strlit("fpr");
            assert(seg.skip(j - start)[0] == lsv[j as int]);
        }
        let fields = split_str(stripped[j].as_str(), ':');
        proof {
            lemma_split_on_len(lsv[j as int], ':');
        }
        if str_eq(fields[0].as_str(), "fpr") {
            if fields.len() <= 9 {
                proof {
                    assert(created_in_segment(seg.skip(j - start)) is None);
                }
                return Err(CatalogError::ProtocolMismatch);
            }
            if result.is_none() {
                result = Some(fields[9].clone());
            }
        }
        proof {
            assert(seg.skip(j - start).drop_first() =~~= seg.skip(j + 1 - start));
        }
        j = j + 1;
    }
    proof {
        assert(seg.skip(n - start) =~~= Seq::<Seq<char>>::empty());
    }
    Ok(result)
}

} // verus!
