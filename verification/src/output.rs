//! Result aggregation and output formatting: the per-source output lines in
//! list mode and count mode, and the prefix decision that puts the source
//! name before each line when more than one source was resolved.
use vstd::prelude::*;

use crate::strutil::concat_str;
use crate::strutil::dec_str;
use crate::strutil::usize_to_string;

verus! {

/// One output value: with several sources the source name, a colon, and the
/// value; with a single source the value alone.
pub open spec fn render_val(name: Seq<char>, multi: bool, val: Seq<char>) -> Seq<char> {
    if multi {
        name + seq![':'] + val
    } else {
        val
    }
}

/// The count-mode line body for `n` kept lines.
pub open spec fn count_line(n: nat) -> Seq<char> {
    dec_str(n).push('\n')
}

/// The output lines for one source: in count mode one line holding the
/// number of kept lines; in list mode one line per kept line, verbatim.
/// Either way each line is prefixed with `"{name}:"` exactly when `multi`.
pub open spec fn process_source_spec(
    name: Seq<char>,
    matches: Seq<Seq<char>>,
    count_mode: bool,
    multi: bool,
) -> Seq<Seq<char>> {
    if count_mode {
        seq![render_val(name, multi, count_line(matches.len()))]
    } else {
        matches.map_values(|m: Seq<char>| render_val(name, multi, m))
    }
}

/// Render one output value, prefixed with `"{name}:"` exactly when `multi`.
pub fn render_line(name: &str, val: &str, multi: bool) -> (r: String)
    ensures
        r@ == render_val(name@, multi, val@),
{
    if multi {
        let mut s = concat_str(name, ":");
        s.append(val);
        proof {
            reveal_strlit(":");
            assert((name@ + ":"@) + val@ =~= name@ + seq![':'] + val@);
        }
        s
    } else {
        String::from_str(val)
    }
}

/// The output lines for one source's matches.
pub fn process_source(name: &str, matches: &Vec<String>, count_mode: bool, multi: bool) -> (out:
    Vec<String>)
    ensures
        out.deep_view() == process_source_spec(name@, matches.deep_view(), count_mode, multi),
{
    let mut out: Vec<String> = Vec::new();
    if count_mode {
        let mut num = usize_to_string(matches.len());
        num.append("\n");
        proof {
            reveal_strlit("\n");
            assert(num@ =~= count_line(matches.deep_view().len()));
        }
        let line = render_line(name, num.as_str(), multi);
        out.push(line);
        proof {
            assert(out.deep_view() =~= process_source_spec(
                name@,
                matches.deep_view(),
                count_mode,
                multi,
            ));
        }
    } else {
        for i in 0..matches.len()
            invariant
                matches.deep_view().len() == matches.len(),
                out.deep_view().len() == i,
                forall|j: int|
                    0 <= j < i ==> out.deep_view()[j] == render_val(
                        name@,
                        multi,
                        matches.deep_view()[j],
                    ),
        {
            let line = render_line(name, matches[i].as_str(), multi);
            let ghost old_dv = out.deep_view();
            out.push(line);
            proof {
                assert(matches.deep_view()[i as int] == matches@[i as int]@);
                assert(out.deep_view() =~= old_dv.push(line@));
            }
        }
        proof {
            assert(out.deep_view() =~= process_source_spec(
                name@,
                matches.deep_view(),
                count_mode,
                multi,
            ));
        }
    }
    out
}

/// The number of `Ok` entries among the resolved outcomes.
pub open spec fn num_ok_spec(entries: Seq<Result<String, String>>) -> nat
    decreases entries.len(),
{
    if entries.len() == 0 {
        0
    } else {
        num_ok_spec(entries.drop_last()) + if entries.last() is Ok {
            1nat
        } else {
            0nat
        }
    }
}

/// Count the sources that resolved: the `Ok` entries.  The caller prefixes
/// output lines exactly when this count exceeds one.
pub fn source_count(entries: &Vec<Result<String, String>>) -> (n: usize)
    ensures
        n == num_ok_spec(entries@),
{
    let mut n: usize = 0;
    for i in 0..entries.len()
        invariant
            n == num_ok_spec(entries@.subrange(0, i as int)),
            n <= i,
    {
        let ghost prefix = entries@.subrange(0, i as int);
        proof {
            assert(entries@.subrange(0, i + 1 as int) =~= prefix.push(entries@[i as int]));
            assert(prefix.push(entries@[i as int]).drop_last() =~= prefix);
        }
        if entries[i].is_ok() {
            n += 1;
        }
    }
    proof {
        assert(entries@.subrange(0, entries@.len() as int) =~= entries@);
    }
    n
}

/// The prefixing law: with several sources every output line opens with the
/// source name and a colon, and carries the value after them; with a single
/// source the output lines are exactly the values (in count mode, the count
/// line alone).
pub proof fn lemma_prefixing(name: Seq<char>, matches: Seq<Seq<char>>, count_mode: bool)
    ensures
        forall|i: int|
            0 <= i < process_source_spec(name, matches, count_mode, true).len() ==> {
                let line = #[trigger] process_source_spec(name, matches, count_mode, true)[i];
                &&& line.len() > name.len()
                &&& line.subrange(0, name.len() as int) == name
                &&& line[name.len() as int] == ':'
            },
        process_source_spec(name, matches, count_mode, false) == if count_mode {
            seq![count_line(matches.len())]
        } else {
            matches
        },
{
    assert forall|i: int|
        0 <= i < process_source_spec(name, matches, count_mode, true).len() implies {
        let line = #[trigger] process_source_spec(name, matches, count_mode, true)[i];
        &&& line.len() > name.len()
        &&& line.subrange(0, name.len() as int) == name
        &&& line[name.len() as int] == ':'
    } by {
        let line = process_source_spec(name, matches, count_mode, true)[i];
        let val = if count_mode {
            count_line(matches.len())
        } else {
            matches[i]
        };
        assert(line == name + seq![':'] + val);
        assert(line.subrange(0, name.len() as int) =~= name);
    }
    if !count_mode {
        assert(process_source_spec(name, matches, count_mode, false) =~= matches);
    }
}

} // verus!
