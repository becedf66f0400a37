//! The keygrip set reconciler: given the user's desired selection and the
//! keystore's currently-enabled set, the keygrips to enable are those
//! desired but not enabled, and the keygrips to disable those enabled but
//! not desired — plain set differences, independent of iteration order.
//! The side effects themselves are the caller's: a caller skips either
//! operation when its list is empty.

use vstd::prelude::*;

verus! {

/// No string occurs twice: the sequence faithfully stands for a set.
pub open spec fn distinct_seq(s: Seq<Seq<char>>) -> bool {
    forall|i: int, j: int| 0 <= i < j < s.len() ==> s[i] != s[j]
}

/// Keep the first occurrence of each string, in order of first sight.
pub open spec fn dedup_first(s: Seq<Seq<char>>) -> Seq<Seq<char>>
    decreases s.len(),
{
    if s.len() == 0 {
        Seq::empty()
    } else {
        let rest = dedup_first(s.drop_last());
        if rest.contains(s.last()) {
            rest
        } else {
            rest.push(s.last())
        }
    }
}

/// Deduplication yields a distinct sequence with the same members.
pub proof fn lemma_dedup_first_props(s: Seq<Seq<char>>)
    ensures
        distinct_seq(dedup_first(s)),
        forall|x: Seq<char>| dedup_first(s).contains(x) <==> s.contains(x),
    decreases s.len(),
{
    if s.len() > 0 {
        lemma_dedup_first_props(s.drop_last());
        let rest = dedup_first(s.drop_last());
        assert forall|x: Seq<char>| s.contains(x) implies dedup_first(s).contains(x) by {
            let i = choose|i: int| 0 <= i < s.len() && s[i] == x;
            if i < s.len() - 1 {
                assert(s.drop_last()[i] == x);
                assert(s.drop_last().contains(x));
                if !rest.contains(s.last()) {
                    let j = choose|j: int| 0 <= j < rest.len() && rest[j] == x;
                    assert(rest.push(s.last())[j] == x);
                }
            } else {
                if rest.contains(s.last()) {
                } else {
                    assert(rest.push(s.last()).last() == x);
                }
            }
        }
        assert forall|x: Seq<char>| dedup_first(s).contains(x) implies s.contains(x) by {
            let j = choose|j: int| 0 <= j < dedup_first(s).len() && dedup_first(s)[j] == x;
            if j < rest.len() {
                assert(rest[j] == x);
                assert(rest.contains(x));
                assert(s.drop_last().contains(x));
                let k = choose|k: int| 0 <= k < s.drop_last().len() && s.drop_last()[k] == x;
                assert(s[k] == x);
            } else {
                assert(dedup_first(s)[j] == s.last());
                assert(s[s.len() - 1] == x);
            }
        }
    }
}

/// Whether the vector holds a string equal to `x`.
pub fn vec_contains_str(v: &Vec<String>, x: &str) -> (r: bool)
    ensures
        r == v.deep_view().contains(x@),
{
    let n = v.len();
    for i in 0..n
        invariant
            n == v@.len(),
            forall|j: int| 0 <= j < i ==> v.deep_view()[j] != x@,
    {
        if crate::strutil::str_eq(v[i].as_str(), x) {
            assert(v.deep_view()[i as int] == x@);
            return true;
        }
    }
    false
}

/// The keygrips of `v` with their repeats dropped: the first occurrence
/// of each keygrip, in order of first sight.
pub fn dedup_keygrips(v: &Vec<String>) -> (r: Vec<String>)
    ensures
        r.deep_view() == dedup_first(v.deep_view()),
        distinct_seq(r.deep_view()),
        forall|x: Seq<char>| r.deep_view().contains(x) <==> v.deep_view().contains(x),
{
    let n = v.len();
    let mut out: Vec<String> = Vec::new();
    proof {
        assert(out.deep_view() =~~= dedup_first(v.deep_view().take(0)));
    }
    for i in 0..n
        invariant
            n == v@.len(),
            out.deep_view() == dedup_first(v.deep_view().take(i as int)),
    {
        let ghost pre = out.deep_view();
        let hit = vec_contains_str(&out, v[i].as_str());
        if !hit {
            out.push(v[i].clone());
        }
        proof {
            assert(v.deep_view().take(i + 1).drop_last() =~~= v.deep_view().take(i as int));
            assert(v.deep_view().take(i + 1).last() == v.deep_view()[i as int]);
            if !hit {
                assert(out.deep_view() =~~= pre.push(v.deep_view()[i as int]));
            }
        }
    }
    proof {
        assert(v.deep_view().take(n as int) =~~= v.deep_view());
        lemma_dedup_first_props(v.deep_view());
    }
    out
}

/// The two operation lists a reconciliation run must perform.
pub struct ReconcilePlan {
    /// Desired but not currently enabled.
    pub to_enable: Vec<String>,
    /// Currently enabled but not desired.
    pub to_disable: Vec<String>,
}

/// What `to_enable` must be: the desired keygrips not enabled, in the
/// order desired lists them.
pub open spec fn spec_to_enable(desired: Seq<Seq<char>>, enabled: Seq<Seq<char>>) -> Seq<
    Seq<char>,
> {
    desired.filter(|g: Seq<char>| !enabled.contains(g))
}

/// What `to_disable` must be: the enabled keygrips not desired, in the
/// order enabled lists them.
pub open spec fn spec_to_disable(desired: Seq<Seq<char>>, enabled: Seq<Seq<char>>) -> Seq<
    Seq<char>,
> {
    enabled.filter(|g: Seq<char>| !desired.contains(g))
}

/// Computes the difference between one sequence and the members of
/// another, keeping order.
fn seq_difference(from: &Vec<String>, members: &Vec<String>) -> (r: Vec<String>)
    ensures
        r.deep_view() == from.deep_view().filter(
            |g: Seq<char>| !members.deep_view().contains(g),
        ),
{
    let ghost pred = |g: Seq<char>| !members.deep_view().contains(g);
    let n = from.len();
    let mut out: Vec<String> = Vec::new();
    proof {
        reveal(Seq::filter);
        assert(out.deep_view() =~~= from.deep_view().take(0).filter(pred));
    }
    for i in 0..n
        invariant
            n == from@.len(),
            out.deep_view() == from.deep_view().take(i as int).filter(pred),
            pred == (|g: Seq<char>| !members.deep_view().contains(g)),
    {
        let ghost pre = out.deep_view();
        let hit = vec_contains_str(members, from[i].as_str());
        if !hit {
            out.push(from[i].clone());
        }
        proof {
            reveal(Seq::filter);
            assert(from.deep_view().take(i + 1).drop_last() =~~= from.deep_view().take(i as int));
            assert(from.deep_view().take(i + 1).last() == from.deep_view()[i as int]);
            if !hit {
                assert(out.deep_view() =~~= pre.push(from.deep_view()[i as int]));
            }
        }
    }
    proof {
        assert(from.deep_view().take(n as int) =~~= from.deep_view());
    }
    out
}

/// Computes set differences between a desired selection and the
/// keystore's enabled set.
pub struct KeygripSetReconciler {
}

impl KeygripSetReconciler {
    /// The minimal operations that make the enabled set equal the
    /// desired one: enable what is desired but not enabled, disable
    /// what is enabled but not desired.
    pub fn reconcile(desired: &Vec<String>, enabled: &Vec<String>) -> (r: ReconcilePlan)
        ensures
            r.to_enable.deep_view() == spec_to_enable(desired.deep_view(), enabled.deep_view()),
            r.to_disable.deep_view() == spec_to_disable(desired.deep_view(), enabled.deep_view()),
    {
        ReconcilePlan {
            to_enable: seq_difference(desired, enabled),
            to_disable: seq_difference(enabled, desired),
        }
    }
}

/// The instruction that marks or unmarks one keygrip for SSH use.
pub open spec fn spec_keyattr(g: Seq<char>, enable: bool) -> Seq<char> {
    "KEYATTR "@ + g + (if enable {
        " Use-for-ssh: true"@
    } else {
        " Use-for-ssh: false"@
    })
}

/// The agent instructions that mark (`enable`) or unmark the keygrips
/// for SSH use, one instruction per keygrip, in order. The caller skips
/// the agent call entirely when the list is empty.
pub fn keyattr_args(keygrips: &Vec<String>, enable: bool) -> (r: Vec<String>)
    ensures
        r.deep_view() == keygrips.deep_view().map_values(
            |g: Seq<char>| spec_keyattr(g, enable),
        ),
{
    let ghost f = |g: Seq<char>| spec_keyattr(g, enable);
    let n = keygrips.len();
    let mut out: Vec<String> = Vec::new();
    proof {
        assert(out.deep_view() =~~= keygrips.deep_view().take(0).map_values(f));
    }
    for i in 0..n
        invariant
            n == keygrips@.len(),
            out.deep_view() == keygrips.deep_view().take(i as int).map_values(f),
            f == (|g: Seq<char>| spec_keyattr(g, enable)),
    {
        let mut instruction = String::new();
        instruction.append("KEYATTR ");
        instruction.append(keygrips[i].as_str());
        if enable {
            instruction.append(" Use-for-ssh: true");
        } else {
            instruction.append(" Use-for-ssh: false");
        }
        proof {
            assert(instruction@ =~= spec_keyattr(keygrips.deep_view()[i as int], enable));
        }
        let ghost pre = out.deep_view();
        out.push(instruction);
        proof {
            assert(out.deep_view() =~~= pre.push(f(keygrips.deep_view()[i as int])));
            assert(keygrips.deep_view().take(i + 1).map_values(f) =~~= pre.push(
                f(keygrips.deep_view()[i as int]),
            ));
        }
    }
    proof {
        assert(keygrips.deep_view().take(n as int) =~~= keygrips.deep_view());
    }
    out
}

/// A filter by an everywhere-false predicate yields nothing.
proof fn lemma_filter_all_false(s: Seq<Seq<char>>, pred: spec_fn(Seq<char>) -> bool)
    requires
        forall|i: int| 0 <= i < s.len() ==> !pred(#[trigger] s[i]),
    ensures
        s.filter(pred) =~= Seq::<Seq<char>>::empty(),
    decreases s.len(),
{
    reveal(Seq::filter);
    if s.len() > 0 {
        lemma_filter_all_false(s.drop_last(), pred);
    }
}

/// Reconciling a selection that already equals the enabled set is a
/// no-op: both operation lists are empty, so a caller, skipping empty
/// lists, performs no side effect at all.
pub proof fn lemma_reconcile_idempotent(desired: Seq<Seq<char>>, enabled: Seq<Seq<char>>)
    requires
        forall|x: Seq<char>| desired.contains(x) <==> enabled.contains(x),
    ensures
        spec_to_enable(desired, enabled) =~= Seq::<Seq<char>>::empty(),
        spec_to_disable(desired, enabled) =~= Seq::<Seq<char>>::empty(),
{
    assert forall|i: int| 0 <= i < desired.len() implies enabled.contains(
        #[trigger] desired[i],
    ) by {
        assert(desired.contains(desired[i]));
    }
    assert forall|i: int| 0 <= i < enabled.len() implies desired.contains(
        #[trigger] enabled[i],
    ) by {
        assert(enabled.contains(enabled[i]));
    }
    lemma_filter_all_false(desired, |g: Seq<char>| !enabled.contains(g));
    lemma_filter_all_false(enabled, |g: Seq<char>| !desired.contains(g));
}

} // verus!
