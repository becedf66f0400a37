//! The colon-record reader: one line of the keystore's machine-readable
//! output is a record whose fields are separated by `:`. Field 0 is the
//! record type (`tru`, `pub`, `fpr`, `uid`, `sub`, `grp`). The accessors
//! here are total: a missing field is `None`, and the catalog builder
//! decides when that is a protocol mismatch.

use vstd::prelude::*;

use crate::strutil::{contains_char, lemma_split_on_len, split_on, split_str, str_eq};

verus! {

/// The fields of one record line.
pub open spec fn record_fields(line: Seq<char>) -> Seq<Seq<char>> {
    split_on(line, ':')
}

/// The record type: field 0, which every line has.
pub open spec fn record_type(line: Seq<char>) -> Seq<char> {
    record_fields(line)[0]
}

/// The view of an optional owned string.
pub open spec fn opt_view(o: Option<String>) -> Option<Seq<char>> {
    match o {
        Some(s) => Some(s@),
        None => None,
    }
}

/// Field `column` of `line`, if the line has that many fields.
pub open spec fn spec_column(line: Seq<char>, column: int) -> Option<Seq<char>> {
    if 0 <= column < record_fields(line).len() {
        Some(record_fields(line)[column])
    } else {
        None
    }
}

/// The fingerprint field of an `fpr` record: field 9.
pub open spec fn spec_fingerprint_of_key(line: Seq<char>) -> Option<Seq<char>> {
    if record_type(line) == "fpr"@ {
        spec_column(line, 9)
    } else {
        None
    }
}

/// The user-id field of a `uid` record: field 9.
pub open spec fn spec_name(line: Seq<char>) -> Option<Seq<char>> {
    if record_type(line) == "uid"@ {
        spec_column(line, 9)
    } else {
        None
    }
}

/// The keygrip field of a `grp` record: field 9.
pub open spec fn spec_keygrip(line: Seq<char>) -> Option<Seq<char>> {
    if record_type(line) == "grp"@ {
        spec_column(line, 9)
    } else {
        None
    }
}

/// Whether `line` is a `sub` record whose capability field (field 11)
/// contains the authentication flag `a`.
pub open spec fn spec_is_sub_auth_key(line: Seq<char>) -> bool {
    &&& record_type(line) == "sub"@
    &&& record_fields(line).len() > 11
    &&& record_fields(line)[11].contains('a')
}

/// Field `column` of `line`, or `None` when the line has fewer fields.
pub fn get_column(line: &str, column: usize) -> (r: Option<String>)
    ensures
        opt_view(r) == spec_column(line@, column as int),
{
    let fields = split_str(line, ':');
    if column < fields.len() {
        Some(fields[column].clone())
    } else {
        None
    }
}

/// The record type of `line`.
pub fn get_type(line: &str) -> (r: String)
    ensures
        r@ == record_type(line@),
{
    let fields = split_str(line, ':');
    proof {
        lemma_split_on_len(line@, ':');
    }
    fields[0].clone()
}

/// The fingerprint carried by an `fpr` record, if `line` is one and has
/// field 9.
pub fn get_fingerprint_of_key(line: &str) -> (r: Option<String>)
    ensures
        opt_view(r) == spec_fingerprint_of_key(line@),
{
    let ty = get_type(line);
    if str_eq(ty.as_str(), "fpr") {
        get_column(line, 9)
    } else {
        None
    }
}

/// The user id carried by a `uid` record, if `line` is one and has field 9.
pub fn get_name(line: &str) -> (r: Option<String>)
    ensures
        opt_view(r) == spec_name(line@),
{
    let ty = get_type(line);
    if str_eq(ty.as_str(), "uid") {
        get_column(line, 9)
    } else {
        None
    }
}

/// The keygrip carried by a `grp` record, if `line` is one and has field 9.
pub fn get_keygrip(line: &str) -> (r: Option<String>)
    ensures
        opt_view(r) == spec_keygrip(line@),
{
    let ty = get_type(line);
    if str_eq(ty.as_str(), "grp") {
        get_column(line, 9)
    } else {
        None
    }
}

/// Whether `line` reports an authentication-capable subkey.
pub fn is_sub_auth_key(line: &str) -> (r: bool)
    ensures
        r == spec_is_sub_auth_key(line@),
{
    let ty = get_type(line);
    if !str_eq(ty.as_str(), "sub") {
        return false;
    }
    let caps = get_column(line, 11);
    match caps {
        Some(c) => contains_char(c.as_str(), 'a'),
        None => false,
    }
}

} // verus!
