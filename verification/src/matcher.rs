//! The line matcher: split a source's text into lines (each keeping its
//! terminator) and keep the lines that satisfy the match predicate,
//! optionally inverted.
use vstd::prelude::*;

use crate::pattern::CompiledPattern;
use crate::pattern::regex_match;

verus! {

/// `k` is the position of the first line feed in `s`.
pub open spec fn is_first_newline(s: Seq<char>, k: int) -> bool {
    &&& 0 <= k < s.len()
    &&& s[k] == '\n'
    &&& forall|j: int| 0 <= j < k ==> s[j] != '\n'
}

/// The lines of `s`, in order, each retaining its `\n` terminator; a final
/// unterminated line is kept as it stands.  Empty input has no lines.
pub open spec fn split_lines_spec(s: Seq<char>) -> Seq<Seq<char>>
    decreases s.len(),
{
    if s.len() == 0 {
        Seq::empty()
    } else if exists|k: int| is_first_newline(s, k) {
        let k = choose|k: int| is_first_newline(s, k);
        if 0 <= k < s.len() {
            seq![s.subrange(0, k + 1)] + split_lines_spec(s.subrange(k + 1, s.len() as int))
        } else {
            seq![s]
        }
    } else {
        seq![s]
    }
}

/// Unfolds `split_lines_spec` at a known first line feed.
proof fn lemma_split_at_first_newline(s: Seq<char>, k: int)
    requires
        is_first_newline(s, k),
    ensures
        split_lines_spec(s) == seq![s.subrange(0, k + 1)] + split_lines_spec(
            s.subrange(k + 1, s.len() as int),
        ),
{
    let kk = choose|kk: int| is_first_newline(s, kk);
    if kk < k {
        assert(s[kk] != '\n');
    }
    if k < kk {
        assert(s[k] != '\n');
    }
    assert(kk == k);
}

/// A nonempty text without a line feed is one line.
proof fn lemma_split_no_newline(s: Seq<char>)
    requires
        s.len() > 0,
        forall|j: int| 0 <= j < s.len() ==> s[j] != '\n',
    ensures
        split_lines_spec(s) == seq![s],
{
    assert(forall|k: int| !is_first_newline(s, k));
}

/// Split `text` into its lines, each retaining its terminator.
pub fn split_lines(text: &str) -> (lines: Vec<String>)
    ensures
        lines.deep_view() == split_lines_spec(text@),
{
    let n = text.unicode_len();
    let mut lines: Vec<String> = Vec::new();
    let mut start: usize = 0;
    let mut i: usize = 0;
    proof {
        assert(text@.subrange(0, n as int) =~= text@);
    }
    while i < n
        invariant
            start <= i <= n,
            n == text@.len(),
            split_lines_spec(text@) == lines.deep_view() + split_lines_spec(
                text@.subrange(start as int, n as int),
            ),
            forall|j: int| start <= j < i ==> text@[j] != '\n',
        decreases n - i,
    {
        let c = text.get_char(i);
        if c == '\n' {
            let line = text.substring_char(start, i + 1);
            let ghost suffix = text@.subrange(start as int, n as int);
            proof {
                assert(is_first_newline(suffix, i - start)) by {
                    assert(suffix[i - start] == text@[i as int]);
                    assert(forall|j: int|
                        0 <= j < i - start ==> suffix[j] == text@[start + j] && text@[start + j]
                            != '\n');
                }
                lemma_split_at_first_newline(suffix, i - start);
                assert(suffix.subrange(0, i - start + 1) =~= text@.subrange(
                    start as int,
                    i + 1 as int,
                ));
                assert(suffix.subrange(i - start + 1, suffix.len() as int) =~= text@.subrange(
                    i + 1 as int,
                    n as int,
                ));
            }
            let line_string = String::from_str(line);
            lines.push(line_string);
            proof {
                assert(lines.deep_view() =~= lines.deep_view().drop_last().push(line@));
                assert(lines.deep_view().drop_last() + (seq![line@] + split_lines_spec(
                    text@.subrange(i + 1 as int, n as int),
                )) =~= lines.deep_view() + split_lines_spec(text@.subrange(i + 1 as int, n as int)));
            }
            start = i + 1;
        }
        i += 1;
    }
    if start < n {
        let rest = text.substring_char(start, n);
        let ghost suffix = text@.subrange(start as int, n as int);
        proof {
            lemma_split_no_newline(suffix);
        }
        let rest_string = String::from_str(rest);
        lines.push(rest_string);
        proof {
            assert(lines.deep_view() =~= lines.deep_view().drop_last().push(rest@));
            assert(lines.deep_view().drop_last() + seq![rest@] =~= lines.deep_view());
        }
    } else {
        proof {
            assert(text@.subrange(start as int, n as int).len() == 0);
            assert(lines.deep_view() + split_lines_spec(text@.subrange(start as int, n as int))
                =~= lines.deep_view());
        }
    }
    lines
}

/// Whether one line is kept: the pattern matches it, flipped by `invert`.
pub open spec fn line_kept(raw: Seq<char>, ignore_case: bool, invert: bool, line: Seq<char>) -> bool {
    regex_match(raw, ignore_case, line) != invert
}

/// The sublist of `lines` that are kept, in order.
pub open spec fn kept_lines(
    lines: Seq<Seq<char>>,
    raw: Seq<char>,
    ignore_case: bool,
    invert: bool,
) -> Seq<Seq<char>> {
    lines.filter(|line: Seq<char>| line_kept(raw, ignore_case, invert, line))
}

/// Keep the lines of `lines` that satisfy `pattern.is_match(line) XOR invert`,
/// in order.
pub fn match_lines(lines: &Vec<String>, pattern: &CompiledPattern, invert: bool) -> (kept: Vec<
    String,
>)
    ensures
        kept.deep_view() == kept_lines(
            lines.deep_view(),
            pattern.spec_raw(),
            pattern.spec_ignore_case(),
            invert,
        ),
{
    let ghost raw = pattern.spec_raw();
    let ghost ignore_case = pattern.spec_ignore_case();
    let mut kept: Vec<String> = Vec::new();
    proof {
        reveal(Seq::filter);
        assert(kept_lines(lines.deep_view().subrange(0, 0), raw, ignore_case, invert)
            =~= kept.deep_view());
    }
    for i in 0..lines.len()
        invariant
            kept.deep_view() == kept_lines(
                lines.deep_view().subrange(0, i as int),
                raw,
                ignore_case,
                invert,
            ),
            lines.deep_view().len() == lines.len(),
            raw == pattern.spec_raw(),
            ignore_case == pattern.spec_ignore_case(),
    {
        let keep = pattern.is_match(lines[i].as_str()) != invert;
        let ghost elem = lines.deep_view()[i as int];
        let ghost prefix = lines.deep_view().subrange(0, i as int);
        proof {
            reveal(Seq::filter);
            assert(elem == lines@[i as int]@);
            assert(keep == line_kept(raw, ignore_case, invert, elem));
            assert(lines.deep_view().subrange(0, i + 1 as int) =~= prefix.push(elem));
            assert(prefix.push(elem).drop_last() =~= prefix);
            assert(kept_lines(prefix.push(elem), raw, ignore_case, invert) == if line_kept(
                raw,
                ignore_case,
                invert,
                elem,
            ) {
                kept_lines(prefix, raw, ignore_case, invert).push(elem)
            } else {
                kept_lines(prefix, raw, ignore_case, invert)
            });
        }
        if keep {
            let line = lines[i].clone();
            kept.push(line);
            proof {
                assert(kept.deep_view() =~= kept.deep_view().drop_last().push(elem));
            }
        }
    }
    proof {
        assert(lines.deep_view().subrange(0, lines.deep_view().len() as int) =~= lines.deep_view());
    }
    kept
}

/// The lines of `text` that are kept by the pattern and the invert flag.
pub open spec fn find_lines_spec(
    text: Seq<char>,
    raw: Seq<char>,
    ignore_case: bool,
    invert: bool,
) -> Seq<Seq<char>> {
    kept_lines(split_lines_spec(text), raw, ignore_case, invert)
}

/// Split `text` into lines and keep those satisfying
/// `pattern.is_match(line) XOR invert`, each retaining its terminator.
pub fn find_lines(text: &str, pattern: &CompiledPattern, invert: bool) -> (kept: Vec<String>)
    ensures
        kept.deep_view() == find_lines_spec(
            text@,
            pattern.spec_raw(),
            pattern.spec_ignore_case(),
            invert,
        ),
{
    let lines = split_lines(text);
    match_lines(&lines, pattern, invert)
}

/// The count-mode result for one source: the number of kept lines.  Its
/// contract ties the count to the length of the list-mode result for the
/// same source, pattern and flags.
pub fn match_count(text: &str, pattern: &CompiledPattern, invert: bool) -> (n: usize)
    ensures
        n == find_lines_spec(
            text@,
            pattern.spec_raw(),
            pattern.spec_ignore_case(),
            invert,
        ).len(),
{
    let kept = find_lines(text, pattern, invert);
    kept.len()
}

/// The invert law: for a fixed pattern and a fixed line list, the lines kept
/// with `invert` and the lines kept without it partition the list — together
/// they are exactly the list, and no line position is kept by both.
pub proof fn lemma_invert_partition(lines: Seq<Seq<char>>, raw: Seq<char>, ignore_case: bool)
    ensures
        kept_lines(lines, raw, ignore_case, false).to_multiset().add(
            kept_lines(lines, raw, ignore_case, true).to_multiset(),
        ) == lines.to_multiset(),
        forall|line: Seq<char>|
            !(kept_lines(lines, raw, ignore_case, false).contains(line) && kept_lines(
                lines,
                raw,
                ignore_case,
                true,
            ).contains(line)),
    decreases lines.len(),
{
    broadcast use vstd::multiset::group_multiset_axioms;

    reveal(Seq::filter);
    let kept = kept_lines(lines, raw, ignore_case, false);
    let dropped = kept_lines(lines, raw, ignore_case, true);
    lines.to_multiset_ensures();
    kept.to_multiset_ensures();
    dropped.to_multiset_ensures();
    if lines.len() == 0 {
        vstd::multiset::lemma_multiset_empty_len(lines.to_multiset());
        vstd::multiset::lemma_multiset_empty_len(kept.to_multiset());
        vstd::multiset::lemma_multiset_empty_len(dropped.to_multiset());
        assert(kept.to_multiset().add(dropped.to_multiset()) =~= lines.to_multiset());
    } else {
        let front = lines.drop_last();
        let last = lines.last();
        lemma_invert_partition(front, raw, ignore_case);
        let front_kept = kept_lines(front, raw, ignore_case, false);
        let front_dropped = kept_lines(front, raw, ignore_case, true);
        front.to_multiset_ensures();
        front_kept.to_multiset_ensures();
        front_dropped.to_multiset_ensures();
        assert(lines =~= front.push(last));
        assert(front.push(last).to_multiset() == front.to_multiset().insert(last));
        assert(lines.to_multiset() == front.to_multiset().insert(last));
        if line_kept(raw, ignore_case, false, last) {
            assert(kept == front_kept.push(last));
            assert(dropped == front_dropped);
            assert(front_kept.push(last).to_multiset() == front_kept.to_multiset().insert(last));
            assert(kept.to_multiset().add(dropped.to_multiset()) =~= lines.to_multiset());
        } else {
            assert(kept == front_kept);
            assert(dropped == front_dropped.push(last));
            assert(front_dropped.push(last).to_multiset() == front_dropped.to_multiset().insert(
                last,
            ));
            assert(kept.to_multiset().add(dropped.to_multiset()) =~= lines.to_multiset());
        }
    }
    assert forall|line: Seq<char>| !(kept.contains(line) && dropped.contains(line)) by {
        if kept.contains(line) && dropped.contains(line) {
            let i = choose|i: int| 0 <= i < kept.len() && kept[i] == line;
            lines.lemma_filter_pred(
                |line: Seq<char>| line_kept(raw, ignore_case, false, line),
                i,
            );
            assert(line_kept(raw, ignore_case, false, line));
            let j = choose|j: int| 0 <= j < dropped.len() && dropped[j] == line;
            lines.lemma_filter_pred(|line: Seq<char>| line_kept(raw, ignore_case, true, line), j);
            assert(line_kept(raw, ignore_case, true, line));
            assert(false);
        }
    }
}

} // verus!
