//! Script support: splitting a script's text into its lines and deciding
//! which lines are fed to the engine: blank lines and comment lines are
//! skipped. The caller reads the file, walks the lines in order, and stops
//! the run on the first failing line.

use vstd::prelude::*;

use crate::text::{is_space, is_space_char};

verus! {

/// Index of the first line break at or after `i`; `s.len()` if there is
/// none.
pub open spec fn nl_scan(s: Seq<char>, i: int) -> int
    decreases s.len() - i,
{
    if i < 0 {
        i
    } else if i >= s.len() || s[i] == '\n' {
        i
    } else {
        nl_scan(s, i + 1)
    }
}

pub proof fn lemma_nl_scan_bounds(s: Seq<char>, i: int)
    requires
        0 <= i <= s.len(),
    ensures
        i <= nl_scan(s, i) <= s.len(),
    decreases s.len() - i,
{
    if i < s.len() && s[i] != '\n' {
        lemma_nl_scan_bounds(s, i + 1);
    }
}

/// A line with a trailing carriage return removed.
pub open spec fn chomp(l: Seq<char>) -> Seq<char> {
    if l.len() > 0 && l.last() == '\r' {
        l.drop_last()
    } else {
        l
    }
}

/// The lines of `s` from index `i` on: content up to each line break, with
/// a trailing carriage return removed, and no empty final line after a
/// trailing break.
pub open spec fn lines_from(s: Seq<char>, i: int) -> Seq<Seq<char>>
    decreases s.len() - i + 1,
{
    if i < 0 || i >= s.len() {
        Seq::empty()
    } else {
        let e = nl_scan(s, i);
        let stop = if i <= e <= s.len() { e } else { i };
        seq![chomp(s.subrange(i, stop))] + lines_from(s, stop + 1)
    }
}

/// The lines of a whole script.
pub open spec fn spec_lines(s: Seq<char>) -> Seq<Seq<char>> {
    lines_from(s, 0)
}

/// A script line is fed to the engine unless it is blank (nothing but
/// whitespace) or starts with the comment marker.
pub open spec fn spec_line_executable(line: Seq<char>) -> bool {
    line.len() > 0 && line[0] != '#' && exists|j: int|
        0 <= j < line.len() && !is_space_char(line[j])
}

/// Whether the script runner feeds this line to the engine.
pub fn should_execute_line(line: &str) -> (r: bool)
    ensures
        r == spec_line_executable(line@),
{
    let n = line.unicode_len();
    if n == 0 || line.get_char(0) == '#' {
        return false;
    }
    let mut i: usize = 0;
    while i < n
        invariant
            i <= n,
            0 < n,
            n == line@.len(),
            line@[0] != '#',
            forall|j: int| 0 <= j < i ==> is_space_char(line@[j]),
        decreases n - i,
    {
        if !is_space(line.get_char(i)) {
            proof {
                assert((i as int) < line@.len() && !is_space_char(line@[i as int]));
            }
            return true;
        }
        i += 1;
    }
    false
}

/// Split a script's text into its lines.
pub fn split_lines(text: &str) -> (lines: Vec<String>)
    ensures
        lines.deep_view() == spec_lines(text@),
{
    let n = text.unicode_len();
    let mut lines: Vec<String> = Vec::new();
    let mut i: usize = 0;
    while i < n
        invariant
            i <= n + 1,
            n == text@.len(),
            lines.deep_view() + lines_from(text@, i as int) =~= spec_lines(text@),
        decreases n + 1 - i,
    {
        let start = i;
        let ghost start_g: int = i as int;
        while i < n && text.get_char(i) != '\n'
            invariant
                start <= i <= n,
                n == text@.len(),
                start_g == start as int,
                nl_scan(text@, start_g) == nl_scan(text@, i as int),
            decreases n - i,
        {
            i += 1;
        }
        proof {
            lemma_nl_scan_bounds(text@, start_g);
            assert(nl_scan(text@, i as int) == i as int);
        }
        let stop = if i > start && text.get_char(i - 1) == '\r' {
            i - 1
        } else {
            i
        };
        let line = text.substring_char(start, stop).to_owned();
        proof {
            let s = text@;
            assert(line@ =~= chomp(s.subrange(start_g, i as int)));
            assert(lines_from(s, start_g) =~= seq![chomp(s.subrange(start_g, i as int))]
                + lines_from(s, i as int + 1));
        }
        let ghost before = lines.deep_view();
        lines.push(line);
        proof {
            assert(lines.deep_view() =~= before.push(line@));
            assert(lines_from(text@, i as int + 1) =~= lines_from(
                text@,
                if i < n { i as int + 1 } else { i as int },
            ));
        }
        if i < n {
            i += 1;
        }
    }
    proof {
        assert(lines.deep_view() =~= spec_lines(text@));
    }
    lines
}

} // verus!
