use vstd::prelude::*;

verus! {

/// Length of the maximal run of `c` in `s` that starts at `start`.
pub open spec fn run_len(s: Seq<char>, start: int, c: char) -> nat
    decreases s.len() - start,
{
    if 0 <= start < s.len() && s[start] == c {
        1 + run_len(s, start + 1, c)
    } else {
        0
    }
}

/// Number of leading tab characters of a line.
pub open spec fn tab_run(s: Seq<char>) -> nat {
    run_len(s, 0, '\t')
}

/// Number of space characters that directly follow the leading tabs of a
/// line. Whitespace after that (a tab after spaces) is not measured.
pub open spec fn space_run(s: Seq<char>) -> nat {
    run_len(s, tab_run(s) as int, ' ')
}

/// A line is sampled only when it starts with a tab or a space.
pub open spec fn qualifies(s: Seq<char>) -> bool {
    s.len() > 0 && (s[0] == '\t' || s[0] == ' ')
}

proof fn lemma_run_len_bound(s: Seq<char>, start: int, c: char)
    requires
        0 <= start <= s.len(),
    ensures
        start + run_len(s, start, c) <= s.len(),
    decreases s.len() - start,
{
    if start < s.len() && s[start] == c {
        lemma_run_len_bound(s, start + 1, c);
    }
}

/// Index just after the run of `c` in `line` that starts at `start`.
fn run_end(line: &str, len: usize, start: usize, c: char) -> (end: usize)
    requires
        len == line@.len(),
        start <= len,
    ensures
        end == start + run_len(line@, start as int, c),
{
    let mut i: usize = start;
    while i < len && line.get_char(i) == c
        invariant
            start <= i <= len,
            len == line@.len(),
            run_len(line@, start as int, c) == (i - start) + run_len(line@, i as int, c),
        decreases len - i,
    {
        i = i + 1;
    }
    i
}

/// Measures the leading whitespace of a line: the number of leading tabs,
/// then the number of spaces that directly follow them.
///
/// A line such as `" \t"` (a space before a tab) is measured as one space and
/// no tab. This is deliberate: the heuristic's output stays the same as it
/// always was, rather than treating such lines as errors.
pub fn scan_indent(line: &str) -> (r: (usize, usize))
    ensures
        r.0 == tab_run(line@),
        r.1 == space_run(line@),
{
    let len = line.unicode_len();
    let tabs_end = run_end(line, len, 0, '\t');
    proof {
        lemma_run_len_bound(line@, 0, '\t');
    }
    let spaces_end = run_end(line, len, tabs_end, ' ');
    (tabs_end, spaces_end - tabs_end)
}

/// Whether a line starts with a tab or a space.
pub fn line_qualifies(line: &str) -> (r: bool)
    ensures
        r == qualifies(line@),
{
    let len = line.unicode_len();
    if len == 0 {
        false
    } else {
        let c = line.get_char(0);
        c == '\t' || c == ' '
    }
}

} // verus!
