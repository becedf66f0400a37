//! The hex fingerprint matcher: validation of a user-supplied short key
//! identifier — the input must end in eight hexadecimal digits, an
//! optional `0x` prefix allowed before them — and first-match lookup of
//! the normalized (uppercase) suffix against a catalog's authentication
//! fingerprints.

use vstd::prelude::*;

use crate::catalog::{spec_auth_openpgp_hex, KeyIdentityView, SshKeyInfo};
use crate::strutil::str_eq;

verus! {

/// A hexadecimal digit, either case.
pub open spec fn is_hex_digit(c: char) -> bool {
    ('0' <= c && c <= '9') || ('A' <= c && c <= 'F') || ('a' <= c && c <= 'f')
}

/// The uppercase form of a hexadecimal digit; other characters are left
/// alone.
pub open spec fn upper_hex(c: char) -> char {
    if c == 'a' {
        'A'
    } else if c == 'b' {
        'B'
    } else if c == 'c' {
        'C'
    } else if c == 'd' {
        'D'
    } else if c == 'e' {
        'E'
    } else if c == 'f' {
        'F'
    } else {
        c
    }
}

/// Each character raised to uppercase hexadecimal.
pub open spec fn normalize_hex(s: Seq<char>) -> Seq<char> {
    s.map_values(|c: char| upper_hex(c))
}

/// Whether `s` ends in eight hexadecimal digits. An optional `0x` before
/// them needs no rule of its own: it simply stands outside the suffix.
pub open spec fn valid_hex_lookup(s: Seq<char>) -> bool {
    s.len() >= 8 && forall|j: int| s.len() - 8 <= j < s.len() ==> is_hex_digit(#[trigger] s[j])
}

/// The normalized eight-character suffix of a valid lookup string.
pub open spec fn hex_suffix(s: Seq<char>) -> Seq<char> {
    normalize_hex(s.subrange(s.len() - 8, s.len() as int))
}

/// The lookup string does not end in eight hexadecimal digits.
#[derive(Debug, PartialEq, Eq, Structural, Clone, Copy)]
pub enum LookupHexError {
    InvalidInput,
}

/// The uppercase form of a hexadecimal digit, or `None` for any other
/// character.
fn hex_char_upper(c: char) -> (r: Option<char>)
    ensures
        match r {
            Some(u) => is_hex_digit(c) && u == upper_hex(c),
            None => !is_hex_digit(c),
        },
{
    if ('0' <= c && c <= '9') || ('A' <= c && c <= 'F') {
        Some(c)
    } else if c == 'a' {
        Some('A')
    } else if c == 'b' {
        Some('B')
    } else if c == 'c' {
        Some('C')
    } else if c == 'd' {
        Some('D')
    } else if c == 'e' {
        Some('E')
    } else if c == 'f' {
        Some('F')
    } else {
        None
    }
}

/// The one-character string of an uppercase hexadecimal digit.
fn hex_digit_str(u: char) -> (r: &'static str)
    requires
        ('0' <= u && u <= '9') || ('A' <= u && u <= 'F'),
    ensures
        r@ =~= seq![u],
{
    proof {
        reveal_strlit("0");
        reveal_strlit("1");
        reveal_strlit("2");
        reveal_strlit("3");
        reveal_strlit("4");
        reveal_strlit("5");
        reveal_strlit("6");
        reveal_strlit("7");
        reveal_strlit("8");
        reveal_strlit("9");
        reveal_strlit("A");
        reveal_strlit("B");
        reveal_strlit("C");
        reveal_strlit("D");
        reveal_strlit("E");
        reveal_strlit("F");
    }
    match u {
        '0' => "0",
        '1' => "1",
        '2' => "2",
        '3' => "3",
        '4' => "4",
        '5' => "5",
        '6' => "6",
        '7' => "7",
        '8' => "8",
        '9' => "9",
        'A' => "A",
        'B' => "B",
        'C' => "C",
        'D' => "D",
        'E' => "E",
        _ => "F",
    }
}

/// Validates a lookup string and returns its normalized eight-character
/// hexadecimal suffix; fails exactly when the string does not end in
/// eight hexadecimal digits.
pub fn verify_lookup_hex(hex_string: &str) -> (r: Result<String, LookupHexError>)
    ensures
        match r {
            Ok(out) => valid_hex_lookup(hex_string@) && out@ == hex_suffix(hex_string@),
            Err(_) => !valid_hex_lookup(hex_string@),
        },
{
    let n = hex_string.unicode_len();
    if n < 8 {
        return Err(LookupHexError::InvalidInput);
    }
    let mut out = String::new();
    let start = n - 8;
    for i in start..n
        invariant
            n == hex_string@.len(),
            start == n - 8,
            forall|j: int| start <= j < i ==> is_hex_digit(#[trigger] hex_string@[j]),
            out@ =~= normalize_hex(hex_string@.subrange(start as int, i as int)),
    {
        match hex_char_upper(hex_string.get_char(i)) {
            Some(u) => {
                let d = hex_digit_str(u);
                out.append(d);
                proof {
                    assert(out@ =~= normalize_hex(
                        hex_string@.subrange(start as int, i + 1),
                    ));
                }
            },
            None => {
                return Err(LookupHexError::InvalidInput);
            },
        }
    }
    Ok(out)
}

/// A validated, normalized eight-character hexadecimal suffix, matched
/// against the short form of each catalog entry's authentication
/// fingerprint.
pub struct HexFingerprintMatcher {
    hex: String,
}

impl View for HexFingerprintMatcher {
    type V = Seq<char>;

    closed spec fn view(&self) -> Seq<char> {
        self.hex@
    }
}

/// Whether the catalog entry's authentication fingerprint ends in the
/// eight characters `q`.
pub open spec fn spec_matches(q: Seq<char>, k: KeyIdentityView) -> bool {
    k.auth_fingerprint.len() >= 8 && spec_auth_openpgp_hex(k) == q
}

impl HexFingerprintMatcher {
    /// A matcher from a user-supplied lookup string; fails exactly when
    /// the string does not end in eight hexadecimal digits.
    pub fn new(hex_string: &str) -> (r: Result<HexFingerprintMatcher, LookupHexError>)
        ensures
            match r {
                Ok(m) => valid_hex_lookup(hex_string@) && m@ == hex_suffix(hex_string@),
                Err(_) => !valid_hex_lookup(hex_string@),
            },
    {
        match verify_lookup_hex(hex_string) {
            Ok(hex) => Ok(HexFingerprintMatcher { hex }),
            Err(e) => Err(e),
        }
    }

    /// The normalized suffix the matcher holds.
    pub fn hex_string(&self) -> (r: &str)
        ensures
            r@ == self@,
    {
        self.hex.as_str()
    }

    /// Whether `key`'s authentication fingerprint ends in the matcher's
    /// suffix.
    pub fn matches(&self, key: &SshKeyInfo) -> (r: bool)
        ensures
            r == spec_matches(self@, key@),
    {
        let n = key.auth_fingerprint.as_str().unicode_len();
        if n < 8 {
            return false;
        }
        str_eq(self.hex.as_str(), key.auth_openpgp_hex_string())
    }

    /// The position of the first catalog entry the matcher accepts.
    /// Entries are unique per authentication subkey, so the first match
    /// is the match.
    pub fn find_first(&self, catalog: &Vec<SshKeyInfo>) -> (r: Option<usize>)
        ensures
            match r {
                Some(i) => i < catalog@.len() && spec_matches(self@, catalog@[i as int]@)
                    && forall|j: int| 0 <= j < i ==> !spec_matches(self@, catalog@[j]@),
                None => forall|j: int| 0 <= j < catalog@.len() ==> !spec_matches(
                    self@,
                    catalog@[j]@,
                ),
            },
    {
        let n = catalog.len();
        for i in 0..n
            invariant
                n == catalog@.len(),
                forall|j: int| 0 <= j < i ==> !spec_matches(self@, catalog@[j]@),
        {
            if self.matches(&catalog[i]) {
                return Some(i);
            }
        }
        None
    }
}

} // verus!
