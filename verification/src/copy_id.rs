//! Argument handling for the copy-id workflow: the public-key file is
//! supplied by the tool itself, so a user-given `-i` flag, and the value
//! right after the first `-i`, must not be passed on. They are set aside
//! so the caller can warn about them.

use vstd::prelude::*;

verus! {

/// One pass over the arguments: every literal `-i` is set aside, and so
/// is the single argument right after the first `-i`; all others are
/// kept in order.
pub open spec fn filter_copy_id_spec(
    args: Seq<Seq<char>>,
    kept: Seq<Seq<char>>,
    skipped: Seq<Seq<char>>,
) -> (Seq<Seq<char>>, Seq<Seq<char>>)
    decreases args.len(),
{
    if args.len() == 0 {
        (kept, skipped)
    } else {
        let a = args[0];
        if a == "-i"@ || skipped.len() == 1 {
            filter_copy_id_spec(args.drop_first(), kept, skipped.push(a))
        } else {
            filter_copy_id_spec(args.drop_first(), kept.push(a), skipped)
        }
    }
}

/// Splits the user's arguments into those passed on and those set
/// aside: every literal `-i`, and the value right after the first one.
pub fn filter_copy_id_args(args: &Vec<String>) -> (r: (Vec<String>, Vec<String>))
    ensures
        (r.0.deep_view(), r.1.deep_view()) == filter_copy_id_spec(
            args.deep_view(),
            Seq::empty(),
            Seq::empty(),
        ),
{
    proof {
        reveal_strlit("-i");
    }
    let ghost av = args.deep_view();
    let mut kept: Vec<String> = Vec::new();
    let mut skipped: Vec<String> = Vec::new();
    proof {
        assert(kept.deep_view() =~~= Seq::<Seq<char>>::empty());
        assert(skipped.deep_view() =~~= Seq::<Seq<char>>::empty());
        assert(av.skip(0) =~~= av);
    }
    let n = args.len();
    let mut i: usize = 0;
    while i < n
        invariant
            0 <= i <= n,
            n == args@.len(),
            av == args.deep_view(),
            filter_copy_id_spec(av.skip(i as int), kept.deep_view(), skipped.deep_view())
                == filter_copy_id_spec(av, Seq::empty(), Seq::empty()),
        decreases n - i,
    {
        proof {
            reveal_strlit("-i");
            assert(av.skip(i as int)[0] == av[i as int]);
        }
        let ghost kpre = kept.deep_view();
        let ghost spre = skipped.deep_view();
        if crate::strutil::str_eq(args[i].as_str(), "-i") || skipped.len() == 1 {
            skipped.push(args[i].clone());
            proof {
                assert(skipped.deep_view() =~~= spre.push(av[i as int]));
            }
        } else {
            kept.push(args[i].clone());
            proof {
                assert(kept.deep_view() =~~= kpre.push(av[i as int]));
            }
        }
        proof {
            assert(av.skip(i as int).drop_first() =~~= av.skip(i + 1));
        }
        i = i + 1;
    }
    proof {
        assert(av.skip(n as int) =~~= Seq::<Seq<char>>::empty());
    }
    (kept, skipped)
}

} // verus!
