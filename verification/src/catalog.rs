//! The key-catalog builder: a sequential state machine over the colon
//! records of a `list keys` run. A block opens at a `pub` record; the
//! block's primary fingerprint is field 9 of the record right after the
//! `pub`, its user id is field 9 of the first `uid`; once the user id has
//! been seen, an authentication-capable `sub` record opens the
//! authentication subkey, whose `fpr` and `grp` records complete one
//! catalog entry. A block that never completes yields nothing.

use vstd::prelude::*;

use crate::strutil::{contains_char, lemma_split_on_len, split_on, split_str, str_eq, trim_ascii,
    trim_spec};
use crate::records::opt_view;

verus! {

/// One SSH-usable key: a certification key together with its
/// authentication-capable subkey.
#[derive(Debug)]
pub struct SshKeyInfo {
    pub main_key_id: String,
    pub main_name: String,
    pub auth_fingerprint: String,
    pub auth_keygrip: String,
}

/// The mathematical content of one catalog entry.
pub ghost struct KeyIdentityView {
    pub main_key_id: Seq<char>,
    pub main_name: Seq<char>,
    pub auth_fingerprint: Seq<char>,
    pub auth_keygrip: Seq<char>,
}

impl View for SshKeyInfo {
    type V = KeyIdentityView;

    open spec fn view(&self) -> KeyIdentityView {
        KeyIdentityView {
            main_key_id: self.main_key_id@,
            main_name: self.main_name@,
            auth_fingerprint: self.auth_fingerprint@,
            auth_keygrip: self.auth_keygrip@,
        }
    }
}

impl SshKeyInfo {
    /// A catalog entry from its four parts.
    pub fn new(key_id: &str, main_name: &str, auth_fingerprint: &str, auth_keygrip: &str) -> (r:
        Self)
        ensures
            r@ == (KeyIdentityView {
                main_key_id: key_id@,
                main_name: main_name@,
                auth_fingerprint: auth_fingerprint@,
                auth_keygrip: auth_keygrip@,
            }),
    {
        SshKeyInfo {
            main_key_id: String::from_str(key_id),
            main_name: String::from_str(main_name),
            auth_fingerprint: String::from_str(auth_fingerprint),
            auth_keygrip: String::from_str(auth_keygrip),
        }
    }

    /// An entry with the same four fields.
    pub fn duplicate(&self) -> (r: Self)
        ensures
            r@ == self@,
    {
        SshKeyInfo::new(
            self.main_key_id.as_str(),
            self.main_name.as_str(),
            self.auth_fingerprint.as_str(),
            self.auth_keygrip.as_str(),
        )
    }

    /// The last eight characters of the authentication fingerprint: the
    /// short form a user enters to look the key up.
    pub fn auth_openpgp_hex_string(&self) -> (r: &str)
        requires
            self.auth_fingerprint@.len() >= 8,
        ensures
            r@ == spec_auth_openpgp_hex(self@),
    {
        let n = self.auth_fingerprint.as_str().unicode_len();
        self.auth_fingerprint.as_str().substring_char(n - 8, n)
    }
}

/// The data model's invariant: all four base fields of an entry are
/// non-empty. Partially observed blocks never produce an entry, and an
/// observed empty field is a protocol mismatch, so every constructed
/// catalog entry satisfies this.
pub open spec fn spec_key_identity_wf(k: KeyIdentityView) -> bool {
    &&& k.main_key_id.len() > 0
    &&& k.main_name.len() > 0
    &&& k.auth_fingerprint.len() > 0
    &&& k.auth_keygrip.len() > 0
}

/// The last eight characters of the authentication fingerprint.
pub open spec fn spec_auth_openpgp_hex(k: KeyIdentityView) -> Seq<char> {
    k.auth_fingerprint.subrange(
        k.auth_fingerprint.len() - 8,
        k.auth_fingerprint.len() as int,
    )
}

/// The raw output did not have the shape the state machine demands: its
/// first record is not `tru`, or a field the machine was about to read
/// is missing or empty. No partial catalog is returned.
#[derive(Debug, PartialEq, Eq, Structural, Clone, Copy)]
pub enum CatalogError {
    ProtocolMismatch,
}

/// The pending fields of the block being scanned.
pub ghost struct BuildState {
    /// Whether the record just consumed was the block-opening `pub`.
    pub prev_was_pub: bool,
    /// Whether the machine is inside an authentication subkey, with its
    /// `fpr` and `grp` records still expected.
    pub inside_auth: bool,
    pub key_id: Option<Seq<char>>,
    pub name: Option<Seq<char>>,
    pub fpr: Option<Seq<char>>,
    pub grip: Option<Seq<char>>,
    /// The entries emitted so far.
    pub out: Seq<KeyIdentityView>,
}

/// The machine's state before any record of a block has been seen.
pub open spec fn init_state() -> BuildState {
    BuildState {
        prev_was_pub: false,
        inside_auth: false,
        key_id: None,
        name: None,
        fpr: None,
        grip: None,
        out: Seq::empty(),
    }
}

/// The type of a split record: its field 0.
pub open spec fn rec_type(rec: Seq<Seq<char>>) -> Seq<char> {
    if rec.len() > 0 {
        rec[0]
    } else {
        Seq::empty()
    }
}

/// One transition of the builder. `None` is a protocol mismatch: a
/// field the machine expected to read is missing, or empty — an
/// observed empty field could only produce an entry that breaks the
/// data model's non-emptiness invariant.
///
/// An entry is emitted the moment all four pending fields are present.
/// Emission clears the authentication flag, fingerprint and keygrip —
/// but not the primary fields — so a block with several
/// authentication-capable subkeys emits one entry per subkey, each
/// keyed to that subkey's own fingerprint and keygrip.
pub open spec fn step(st: BuildState, rec: Seq<Seq<char>>) -> Option<BuildState> {
    let ty = rec_type(rec);
    if ty == "pub"@ {
        Some(BuildState {
            prev_was_pub: true,
            inside_auth: false,
            key_id: None,
            name: None,
            fpr: None,
            grip: None,
            out: st.out,
        })
    } else {
        let reads9 = (ty == "fpr"@ && (st.prev_was_pub || st.inside_auth)) || ty == "uid"@ || (ty
            == "grp"@ && st.inside_auth);
        let tests_sub = ty == "sub"@ && !st.inside_auth && st.name is Some;
        if reads9 && (rec.len() <= 9 || rec[9].len() == 0) {
            None
        } else if tests_sub && rec.len() <= 11 {
            None
        } else {
            let key_id = if ty == "fpr"@ && st.prev_was_pub {
                Some(rec[9])
            } else {
                st.key_id
            };
            let name = if ty == "uid"@ && st.name is None {
                Some(rec[9])
            } else {
                st.name
            };
            let inside_auth = if tests_sub {
                rec[11].contains('a')
            } else {
                st.inside_auth
            };
            let fpr = if ty == "fpr"@ && st.inside_auth {
                Some(rec[9])
            } else {
                st.fpr
            };
            let grip = if ty == "grp"@ && st.inside_auth {
                Some(rec[9])
            } else {
                st.grip
            };
            if key_id is Some && name is Some && fpr is Some && grip is Some {
                Some(BuildState {
                    prev_was_pub: false,
                    inside_auth: false,
                    key_id,
                    name,
                    fpr: None,
                    grip: None,
                    out: st.out.push(KeyIdentityView {
                        main_key_id: key_id->0,
                        main_name: name->0,
                        auth_fingerprint: fpr->0,
                        auth_keygrip: grip->0,
                    }),
                })
            } else {
                Some(BuildState {
                    prev_was_pub: false,
                    inside_auth,
                    key_id,
                    name,
                    fpr,
                    grip,
                    out: st.out,
                })
            }
        }
    }
}

/// The machine run over a sequence of records.
pub open spec fn run_steps(st: BuildState, recs: Seq<Seq<Seq<char>>>) -> Option<BuildState>
    decreases recs.len(),
{
    if recs.len() == 0 {
        Some(st)
    } else {
        match step(st, recs[0]) {
            None => None,
            Some(st2) => run_steps(st2, recs.drop_first()),
        }
    }
}

/// The records of a raw `list keys` output: the text trimmed of ASCII
/// whitespace at its edges, split into lines, each line split into
/// fields.
pub open spec fn records_of(raw: Seq<char>) -> Seq<Seq<Seq<char>>> {
    split_on(trim_spec(raw), '\n').map_values(|l: Seq<char>| split_on(l, ':'))
}

/// The catalog a raw output denotes: `None` on protocol mismatch, the
/// emitted entries otherwise. The first record must be `tru`.
pub open spec fn catalog_spec(raw: Seq<char>) -> Option<Seq<KeyIdentityView>> {
    let recs = records_of(raw);
    if rec_type(recs[0]) != "tru"@ {
        None
    } else {
        match run_steps(init_state(), recs.drop_first()) {
            None => None,
            Some(st) => Some(st.out),
        }
    }
}

/// The views of the entries of a catalog.
pub open spec fn catalog_view(v: Seq<SshKeyInfo>) -> Seq<KeyIdentityView> {
    v.map_values(|k: SshKeyInfo| k@)
}

/// Builds the catalog from the raw output of a `list keys with keygrips,
/// colon-delimited` run. Fails, with no partial catalog, exactly when
/// the output's first record is not `tru` or a field the state machine
/// was about to read is missing or empty. Every returned entry has all
/// four base fields non-empty.
pub fn gpg_keys(raw: &str) -> (r: Result<Vec<SshKeyInfo>, CatalogError>)
    ensures
        match r {
            Ok(v) => catalog_spec(raw@) == Some(catalog_view(v@)) && forall|i: int|
                0 <= i < v@.len() ==> spec_key_identity_wf(#[trigger] v@[i]@),
            Err(_) => catalog_spec(raw@) is None,
        },
{
    proof {
        reveal_strlit("tru");
        reveal_strlit("pub");
        reveal_strlit("fpr");
        reveal_strlit("uid");
        reveal_strlit("sub");
        reveal_strlit("grp");
    }
    let trimmed = trim_ascii(raw);
    let lines = split_str(trimmed, '\n');
    proof {
        lemma_split_on_len(trim_spec(raw@), '\n');
    }
    let ghost recs = records_of(raw@);
    assert(recs =~~= lines.deep_view().map_values(|l: Seq<char>| split_on(l, ':')));

    let first_fields = split_str(lines[0].as_str(), ':');
    proof {
        lemma_split_on_len(lines.deep_view()[0], ':');
    }
    if !str_eq(first_fields[0].as_str(), "tru") {
        return Err(CatalogError::ProtocolMismatch);
    }

    let mut prev_was_pub: bool = false;
    let mut inside_auth: bool = false;
    let mut key_id: Option<String> = None;
    let mut name: Option<String> = None;
    let mut fpr: Option<String> = None;
    let mut grip: Option<String> = None;
    let mut out: Vec<SshKeyInfo> = Vec::new();

    let ghost rest = recs.drop_first();
    proof {
        assert(catalog_view(out@) =~= Seq::<KeyIdentityView>::empty());
        assert(rest.skip(0) =~~= rest);
    }
    let n = lines.len();
    let mut i: usize = 1;
    while i < n
        invariant
            1 <= i <= n,
            n == lines@.len(),
            recs == records_of(raw@),
            recs =~~= lines.deep_view().map_values(|l: Seq<char>| split_on(l, ':')),
            rest == recs.drop_first(),
            rec_type(recs[0]) == "tru"@,
            run_steps(
                BuildState {
                    prev_was_pub,
                    inside_auth,
                    key_id: opt_view(key_id),
                    name: opt_view(name),
                    fpr: opt_view(fpr),
                    grip: opt_view(grip),
                    out: catalog_view(out@),
                },
                rest.skip(i - 1),
            ) == run_steps(init_state(), rest),
        decreases n - i,
    {
        proof {
            reveal_strlit("pub");
            reveal_strlit("fpr");
            reveal_strlit("uid");
            reveal_strlit("sub");
            reveal_strlit("grp");
        }
        let ghost st_entry = BuildState {
            prev_was_pub,
            inside_auth,
            key_id: opt_view(key_id),
            name: opt_view(name),
            fpr: opt_view(fpr),
            grip: opt_view(grip),
            out: catalog_view(out@),
        };
        let fields = split_str(lines[i].as_str(), ':');
        proof {
            lemma_split_on_len(lines.deep_view()[i as int], ':');
            assert(rest.skip(i - 1)[0] == rest[i - 1]);
            assert(rest[i - 1] == recs[i as int]);
            assert(fields.deep_view() == recs[i as int]);
        }
        let ghost rec = fields.deep_view();
        let is_pub = str_eq(fields[0].as_str(), "pub");
        if is_pub {
            prev_was_pub = true;
            inside_auth = false;
            key_id = None;
            name = None;
            fpr = None;
            grip = None;
        } else {
            let is_fpr = str_eq(fields[0].as_str(), "fpr");
            let is_uid = str_eq(fields[0].as_str(), "uid");
            let is_sub = str_eq(fields[0].as_str(), "sub");
            let is_grp = str_eq(fields[0].as_str(), "grp");
            let reads9 = (is_fpr && (prev_was_pub || inside_auth)) || is_uid || (is_grp
                && inside_auth);
            let tests_sub = is_sub && !inside_auth && name.is_some();
            if reads9 && (fields.len() <= 9 || fields[9].as_str().is_empty()) {
                proof {
                    assert(step(st_entry, rec) is None);
                }
                return Err(CatalogError::ProtocolMismatch);
            }
            if tests_sub && fields.len() <= 11 {
                proof {
                    assert(step(st_entry, rec) is None);
                }
                return Err(CatalogError::ProtocolMismatch);
            }
            if is_fpr && prev_was_pub {
                key_id = Some(fields[9].clone());
            }
            if is_uid && name.is_none() {
                name = Some(fields[9].clone());
            }
            if is_fpr && inside_auth {
                fpr = Some(fields[9].clone());
            }
            if is_grp && inside_auth {
                grip = Some(fields[9].clone());
            }
            if tests_sub {
                inside_auth = contains_char(fields[11].as_str(), 'a');
            }
            if key_id.is_some() && name.is_some() && fpr.is_some() && grip.is_some() {
                let entry = SshKeyInfo {
                    main_key_id: unwrap_clone(&key_id),
                    main_name: unwrap_clone(&name),
                    auth_fingerprint: unwrap_clone(&fpr),
                    auth_keygrip: unwrap_clone(&grip),
                };
                out.push(entry);
                fpr = None;
                grip = None;
                inside_auth = false;
                proof {
                    assert(catalog_view(out@) =~= st_entry.out.push(out@.last()@));
                }
            }
            prev_was_pub = false;
        }
        proof {
            let st_next = BuildState {
                prev_was_pub,
                inside_auth,
                key_id: opt_view(key_id),
                name: opt_view(name),
                fpr: opt_view(fpr),
                grip: opt_view(grip),
                out: catalog_view(out@),
            };
            assert(step(st_entry, rec) == Some(st_next));
            assert(rest.skip(i - 1).drop_first() =~~= rest.skip(i as int));
        }
        i = i + 1;
    }
    proof {
        assert(rest.skip(n - 1) =~~= Seq::<Seq<Seq<char>>>::empty());
        assert(catalog_spec(raw@) == Some(catalog_view(out@)));
        lemma_catalog_entries_wf(raw@);
        assert forall|j: int| 0 <= j < out@.len() implies spec_key_identity_wf(
            #[trigger] out@[j]@,
        ) by {
            assert(spec_key_identity_wf(catalog_spec(raw@)->0[j]));
            assert(catalog_spec(raw@)->0 == catalog_view(out@));
            assert(catalog_view(out@)[j] == out@[j]@);
        }
    }
    Ok(out)
}

/// A pending field that is either unobserved or holds a non-empty
/// string.
spec fn pending_wf(o: Option<Seq<char>>) -> bool {
    match o {
        Some(s) => s.len() > 0,
        None => true,
    }
}

/// The builder never holds an observed empty field, and every entry
/// emitted so far has all four base fields non-empty.
spec fn state_wf(st: BuildState) -> bool {
    &&& pending_wf(st.key_id)
    &&& pending_wf(st.name)
    &&& pending_wf(st.fpr)
    &&& pending_wf(st.grip)
    &&& forall|i: int| 0 <= i < st.out.len() ==> spec_key_identity_wf(#[trigger] st.out[i])
}

proof fn lemma_step_preserves_wf(st: BuildState, rec: Seq<Seq<char>>)
    requires
        state_wf(st),
    ensures
        match step(st, rec) {
            Some(st2) => state_wf(st2),
            None => true,
        },
{
}

proof fn lemma_run_steps_wf(st: BuildState, recs: Seq<Seq<Seq<char>>>)
    requires
        state_wf(st),
    ensures
        match run_steps(st, recs) {
            Some(st2) => state_wf(st2),
            None => true,
        },
    decreases recs.len(),
{
    if recs.len() > 0 {
        lemma_step_preserves_wf(st, recs[0]);
        match step(st, recs[0]) {
            None => {},
            Some(st2) => {
                lemma_run_steps_wf(st2, recs.drop_first());
            },
        }
    }
}

/// Every entry of a denoted catalog satisfies the data model's
/// invariant: a partially observed block never produces an entry, and
/// an observed empty field aborts the parse, so all four base fields of
/// every entry are non-empty.
pub proof fn lemma_catalog_entries_wf(raw: Seq<char>)
    ensures
        match catalog_spec(raw) {
            Some(cat) => forall|i: int| 0 <= i < cat.len() ==> spec_key_identity_wf(
                #[trigger] cat[i],
            ),
            None => true,
        },
{
    let recs = records_of(raw);
    if rec_type(recs[0]) == "tru"@ {
        lemma_run_steps_wf(init_state(), recs.drop_first());
    }
}

/// A record reporting an authentication-capable subkey: a `sub` whose
/// capability field contains `a`.
pub open spec fn spec_is_auth_sub_record(rec: Seq<Seq<char>>) -> bool {
    rec_type(rec) == "sub"@ && rec.len() > 11 && rec[11].contains('a')
}

/// A raw output whose first record is not `tru` denotes no catalog at
/// all: the parse is a protocol mismatch and produces zero entries.
pub proof fn lemma_first_record_not_tru(raw: Seq<char>)
    requires
        rec_type(records_of(raw)[0]) != "tru"@,
    ensures
        catalog_spec(raw) is None,
{
}

/// While no record reports an authentication-capable subkey, the machine
/// never enters an authentication subkey and emits nothing. Applied to
/// the records of one key block, this is the block-local rule: a
/// primary key without an authentication-capable subkey yields no
/// entry.
pub proof fn lemma_no_auth_sub_no_emission(st: BuildState, recs: Seq<Seq<Seq<char>>>)
    requires
        !st.inside_auth,
        st.grip is None,
        forall|i: int| 0 <= i < recs.len() ==> !spec_is_auth_sub_record(#[trigger] recs[i]),
    ensures
        match run_steps(st, recs) {
            Some(st2) => st2.out == st.out,
            None => true,
        },
    decreases recs.len(),
{
    if recs.len() > 0 {
        assert(!spec_is_auth_sub_record(recs[0]));
        match step(st, recs[0]) {
            None => {},
            Some(st2) => {
                lemma_no_auth_sub_no_emission(st2, recs.drop_first());
            },
        }
    }
}

/// Raw output in which no record reports an authentication-capable
/// subkey yields zero catalog entries: keys without an authentication
/// subkey are silently skipped, never an error of their own.
pub proof fn lemma_no_auth_sub_catalog_empty(raw: Seq<char>)
    requires
        forall|i: int| 0 <= i < records_of(raw).len() ==> !spec_is_auth_sub_record(
            #[trigger] records_of(raw)[i],
        ),
    ensures
        match catalog_spec(raw) {
            Some(cat) => cat =~= Seq::<KeyIdentityView>::empty(),
            None => true,
        },
{
    let recs = records_of(raw);
    if rec_type(recs[0]) == "tru"@ {
        assert(forall|i: int| 0 <= i < recs.drop_first().len()
            ==> !spec_is_auth_sub_record(#[trigger] recs.drop_first()[i]));
        lemma_no_auth_sub_no_emission(init_state(), recs.drop_first());
    }
}

/// The first-seen user id of a block wins: once the pending name is set,
/// no record short of a new `pub` changes it — a second `uid` in the
/// same block is ignored.
pub proof fn lemma_first_uid_wins(st: BuildState, rec: Seq<Seq<char>>)
    requires
        st.name is Some,
        rec_type(rec) != "pub"@,
    ensures
        match step(st, rec) {
            Some(st2) => st2.name == st.name,
            None => true,
        },
{
}

/// Over a whole block — any run of records none of which is a `pub` —
/// the name set by the first-seen user id never changes.
pub proof fn lemma_uid_stable_in_block(st: BuildState, recs: Seq<Seq<Seq<char>>>)
    requires
        st.name is Some,
        forall|i: int| 0 <= i < recs.len() ==> rec_type(#[trigger] recs[i]) != "pub"@,
    ensures
        match run_steps(st, recs) {
            Some(st2) => st2.name == st.name,
            None => true,
        },
    decreases recs.len(),
{
    if recs.len() > 0 {
        lemma_first_uid_wins(st, recs[0]);
        match step(st, recs[0]) {
            None => {},
            Some(st2) => {
                lemma_uid_stable_in_block(st2, recs.drop_first());
            },
        }
    }
}

/// The string held by an option known to be `Some`.
fn unwrap_clone(o: &Option<String>) -> (r: String)
    requires
        o is Some,
    ensures
        r@ == o->0@,
{
    match o {
        Some(s) => s.clone(),
        None => String::new(),
    }
}

} // verus!
