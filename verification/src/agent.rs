//! The enabled-set parser: the agent reports the keygrips currently
//! marked for SSH use one per line, columns separated by single spaces,
//! the keygrip in the third column, the listing terminated by a line
//! holding exactly `OK`. The set is read fresh on every run and never
//! cached.

use vstd::prelude::*;

use crate::reconcile::{dedup_first, dedup_keygrips, distinct_seq};
use crate::strutil::{split_on, split_str, str_eq, trim_ascii, trim_spec};

verus! {

/// A line with its trailing carriage return, if any, dropped.
pub open spec fn strip_cr(l: Seq<char>) -> Seq<char> {
    if l.len() > 0 && l.last() == '\r' {
        l.drop_last()
    } else {
        l
    }
}

/// The lines of a text: split on newlines, each line without a trailing
/// carriage return.
pub open spec fn lines_of(s: Seq<char>) -> Seq<Seq<char>> {
    split_on(s, '\n').map_values(|l: Seq<char>| strip_cr(l))
}

/// The keygrips the lines report, in order, up to the terminating `OK`
/// line: the third space-separated column of each line. `None` when a
/// line before the terminator has fewer than three columns.
pub open spec fn enabled_lines_spec(lines: Seq<Seq<char>>) -> Option<Seq<Seq<char>>>
    decreases lines.len(),
{
    if lines.len() == 0 {
        Some(Seq::empty())
    } else if lines[0] == "OK"@ {
        Some(Seq::empty())
    } else {
        let cols = split_on(lines[0], ' ');
        if cols.len() <= 2 {
            None
        } else {
            match enabled_lines_spec(lines.drop_first()) {
                None => None,
                Some(rest) => Some(seq![cols[2]] + rest),
            }
        }
    }
}

/// The enabled set a raw agent output denotes: the reported keygrips
/// with repeats dropped, or `None` when a line is malformed. Output
/// that is all whitespace has no lines and reports nothing.
pub open spec fn enabled_keygrips_spec(raw: Seq<char>) -> Option<Seq<Seq<char>>> {
    if trim_spec(raw).len() == 0 {
        Some(Seq::empty())
    } else {
        match enabled_lines_spec(lines_of(trim_spec(raw))) {
            None => None,
            Some(s) => Some(dedup_first(s)),
        }
    }
}

/// A line before the terminating `OK` had fewer than three columns.
#[derive(Debug, PartialEq, Eq, Structural, Clone, Copy)]
pub enum AgentError {
    MalformedLine,
}

/// Parses the raw output of a `query SSH-usable keygrips` run into the
/// currently-enabled set. Fails exactly when a line before the
/// terminating `OK` lacks a third column.
pub fn get_enabled_keygrip(raw: &str) -> (r: Result<Vec<String>, AgentError>)
    ensures
        match r {
            Ok(v) => enabled_keygrips_spec(raw@) == Some(v.deep_view()) && distinct_seq(
                v.deep_view(),
            ),
            Err(_) => enabled_keygrips_spec(raw@) is None,
        },
{
    proof {
        reveal_strlit("OK");
    }
    let trimmed = trim_ascii(raw);
    if trimmed.is_empty() {
        let empty_set: Vec<String> = Vec::new();
        proof {
            assert(empty_set.deep_view() =~~= Seq::<Seq<char>>::empty());
        }
        return Ok(empty_set);
    }
    let lines = split_str(trimmed, '\n');
    let ghost lsv = lines_of(trim_spec(raw@));
    proof {
        assert(lsv =~~= lines.deep_view().map_values(|l: Seq<char>| strip_cr(l)));
    }
    let mut out: Vec<String> = Vec::new();
    let n = lines.len();
    proof {
        assert(lsv.skip(0) =~~= lsv);
    }
    let mut i: usize = 0;
    while i < n
        invariant
            0 <= i <= n,
            n == lines@.len(),
            trim_spec(raw@).len() != 0,
            lsv == lines_of(trim_spec(raw@)),
            lsv =~~= lines.deep_view().map_values(|l: Seq<char>| strip_cr(l)),
            match enabled_lines_spec(lsv.skip(i as int)) {
                None => enabled_lines_spec(lsv) is None,
                Some(rest) => enabled_lines_spec(lsv) == Some(out.deep_view() + rest),
            },
        decreases n - i,
    {
        let line = lines[i].as_str();
        let ln = line.unicode_len();
        let stripped: &str = if ln > 0 && line.get_char(ln - 1) == '\r' {
            line.substring_char(0, ln - 1)
        } else {
            line
        };
        proof {
            assert(line@.subrange(0, line@.len() - 1) =~= line@.drop_last());
            assert(stripped@ == strip_cr(lines.deep_view()[i as int]));
            assert(lsv.skip(i as int)[0] == lsv[i as int]);
        }
        if str_eq(stripped, "OK") {
            proof {
                assert(out.deep_view() + Seq::<Seq<char>>::empty() =~~= out.deep_view());
            }
            let r = dedup_keygrips(&out);
            return Ok(r);
        }
        let cols = split_str(stripped, ' ');
        if cols.len() <= 2 {
            return Err(AgentError::MalformedLine);
        }
        let ghost pre = out.deep_view();
        out.push(cols[2].clone());
        proof {
            assert(out.deep_view() =~~= pre.push(cols.deep_view()[2]));
            assert(lsv.skip(i as int).drop_first() =~~= lsv.skip(i + 1));
            match enabled_lines_spec(lsv.skip(i + 1)) {
                None => {},
                Some(rest) => {
                    assert(pre + (seq![cols.deep_view()[2]] + rest) =~~= out.deep_view() + rest);
                },
            }
        }
        i = i + 1;
    }
    proof {
        assert(lsv.skip(n as int) =~~= Seq::<Seq<char>>::empty());
        assert(out.deep_view() + Seq::<Seq<char>>::empty() =~~= out.deep_view());
    }
    let r = dedup_keygrips(&out);
    Ok(r)
}

} // verus!
