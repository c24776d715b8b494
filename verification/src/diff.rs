//! Line diffing: the longest-common-subsequence length table over two
//! line sequences, and the diff walk that reads the table back into a
//! sequence of kept, added, and removed lines.

use vstd::prelude::*;

use crate::grid::Grid;

verus! {

/// The length of the longest common subsequence of the first `i` lines
/// of `s1` and the first `j` lines of `s2`.
pub open spec fn spec_lcs(s1: Seq<String>, s2: Seq<String>, i: nat, j: nat) -> nat
    decreases i + j,
{
    if i == 0 || j == 0 {
        0
    } else if s1[i - 1]@ == s2[j - 1]@ {
        spec_lcs(s1, s2, (i - 1) as nat, (j - 1) as nat) + 1
    } else {
        let a = spec_lcs(s1, s2, i, (j - 1) as nat);
        let b = spec_lcs(s1, s2, (i - 1) as nat, j);
        if a >= b {
            a
        } else {
            b
        }
    }
}

/// A common subsequence never exceeds either prefix length.
pub proof fn lemma_lcs_bound(s1: Seq<String>, s2: Seq<String>, i: nat, j: nat)
    ensures
        spec_lcs(s1, s2, i, j) <= i,
        spec_lcs(s1, s2, i, j) <= j,
    decreases i + j,
{
    if i == 0 || j == 0 {
    } else if s1[i - 1]@ == s2[j - 1]@ {
        lemma_lcs_bound(s1, s2, (i - 1) as nat, (j - 1) as nat);
    } else {
        lemma_lcs_bound(s1, s2, i, (j - 1) as nat);
        lemma_lcs_bound(s1, s2, (i - 1) as nat, j);
    }
}

/// Whether grid cell (`a`,`b`) holds the subsequence length for the
/// prefix pair (`a`,`b`).
pub open spec fn spec_lcs_cell_ok(c: Grid, s1: Seq<String>, s2: Seq<String>, a: int, b: int) -> bool {
    c.spec_get(a, b) == Some(spec_lcs(s1, s2, a as nat, b as nat) as usize)
}

/// Fills the full subsequence-length table for the two line sequences:
/// cell (`i`,`j`) holds the length for the first `i` lines of `seq1`
/// against the first `j` lines of `seq2`.
pub fn lcs(seq1: &Vec<String>, seq2: &Vec<String>) -> (c: Grid)
    requires
        (seq1@.len() + 1) * (seq2@.len() + 1) <= usize::MAX,
    ensures
        c.wf(),
        c.spec_rows() == seq1@.len() + 1,
        c.spec_cols() == seq2@.len() + 1,
        forall|a: int, b: int|
            0 <= a <= seq1@.len() && 0 <= b <= seq2@.len() ==> spec_lcs_cell_ok(
                c,
                seq1@,
                seq2@,
                a,
                b,
            ),
{
    let m = seq1.len();
    let n = seq2.len();
    proof {
        assert(m + 1 <= (m + 1) * (n + 1) && n + 1 <= (m + 1) * (n + 1)) by (nonlinear_arith)
            requires
                m >= 0,
                n >= 0,
        ;
    }
    let mut c = Grid::new(m + 1, n + 1);
    let mut i: usize = 0;
    while i < m
        invariant
            0 <= i <= m,
            m < usize::MAX,
            m == seq1@.len(),
            n == seq2@.len(),
            c.wf(),
            c.spec_rows() == m + 1,
            c.spec_cols() == n + 1,
            forall|a: int, b: int|
                0 <= a <= m && 0 <= b <= n && (a <= i || b == 0) ==> spec_lcs_cell_ok(
                    c,
                    seq1@,
                    seq2@,
                    a,
                    b,
                ),
        decreases m - i,
    {
        let mut j: usize = 0;
        while j < n
            invariant
                0 <= i < m,
                0 <= j <= n,
                m < usize::MAX,
                m == seq1@.len(),
                n == seq2@.len(),
                c.wf(),
                c.spec_rows() == m + 1,
                c.spec_cols() == n + 1,
                forall|a: int, b: int|
                    0 <= a <= m && 0 <= b <= n && (a <= i || b == 0 || (a == i + 1 && b <= j))
                        ==> spec_lcs_cell_ok(c, seq1@, seq2@, a, b),
            decreases n - j,
        {
            proof {
                assert(spec_lcs_cell_ok(c, seq1@, seq2@, i as int, j as int));
                assert(spec_lcs_cell_ok(c, seq1@, seq2@, i + 1, j as int));
                assert(spec_lcs_cell_ok(c, seq1@, seq2@, i as int, j + 1));
                lemma_lcs_bound(seq1@, seq2@, i as nat, j as nat);
                lemma_lcs_bound(seq1@, seq2@, (i + 1) as nat, j as nat);
                lemma_lcs_bound(seq1@, seq2@, i as nat, (j + 1) as nat);
            }
            let equal = seq1[i] == seq2[j];
            let val: usize;
            if equal {
                let prev = match c.get(i, j) {
                    Some(x) => x,
                    None => {
                        proof {
                            assert(false);
                        }
                        0
                    },
                };
                val = prev + 1;
            } else {
                let left = match c.get(i + 1, j) {
                    Some(x) => x,
                    None => {
                        proof {
                            assert(false);
                        }
                        0
                    },
                };
                let up = match c.get(i, j + 1) {
                    Some(x) => x,
                    None => {
                        proof {
                            assert(false);
                        }
                        0
                    },
                };
                val = if left >= up {
                    left
                } else {
                    up
                };
            }
            proof {
                assert(val == spec_lcs(seq1@, seq2@, (i + 1) as nat, (j + 1) as nat));
            }
            let ghost c_before = c;
            let set_res = c.set(i + 1, j + 1, val);
            proof {
                assert(set_res is Ok);
                assert forall|a: int, b: int|
                    0 <= a <= m && 0 <= b <= n && (a <= i || b == 0 || (a == i + 1 && b <= j
                        + 1)) implies spec_lcs_cell_ok(c, seq1@, seq2@, a, b) by {
                    if !(a == i + 1 && b == j + 1) {
                        assert(spec_lcs_cell_ok(c_before, seq1@, seq2@, a, b));
                    }
                }
            }
            j = j + 1;
        }
        i = i + 1;
    }
    c
}

/// One line of a diff report.
#[derive(Debug)]
pub enum DiffEntry {
    /// A line common to both inputs.
    Same(String),
    /// A line only the second input has.
    Added(String),
    /// A line only the first input has.
    Removed(String),
    /// The blank line ending the walk.
    Blank,
}

/// The ordering the diff walk uses on two table cells: absent compares
/// below every value.
pub open spec fn spec_opt_ge(a: Option<usize>, b: Option<usize>) -> bool {
    match (a, b) {
        (None, None) => true,
        (None, Some(_)) => false,
        (Some(_), None) => true,
        (Some(x), Some(y)) => x >= y,
    }
}

/// Compares two optional table values as the diff walk does.
pub fn opt_ge(a: Option<usize>, b: Option<usize>) -> (r: bool)
    ensures
        r == spec_opt_ge(a, b),
{
    match (a, b) {
        (None, None) => true,
        (None, Some(_)) => false,
        (Some(_), None) => true,
        (Some(x), Some(y)) => x >= y,
    }
}

/// The diff the table walk reports for the first `i` lines of `l1`
/// against the first `j` lines of `l2`: common lines where the prefixes
/// agree, otherwise the direction with the longer subsequence, ending in
/// one blank entry.
pub open spec fn spec_diff(g: Grid, l1: Seq<String>, l2: Seq<String>, i: nat, j: nat) -> Seq<
    DiffEntry,
>
    decreases i + j,
{
    if i > 0 && j > 0 && l1[i - 1]@ == l2[j - 1]@ {
        spec_diff(g, l1, l2, (i - 1) as nat, (j - 1) as nat).push(DiffEntry::Same(l1[i - 1]))
    } else if j > 0 && (i == 0 || spec_opt_ge(
        g.spec_get(i as int, j - 1),
        g.spec_get(i - 1, j as int),
    )) {
        spec_diff(g, l1, l2, i, (j - 1) as nat).push(DiffEntry::Added(l2[j - 1]))
    } else if i > 0 && (j == 0 || !spec_opt_ge(
        g.spec_get(i as int, j - 1),
        g.spec_get(i - 1, j as int),
    )) {
        spec_diff(g, l1, l2, (i - 1) as nat, j).push(DiffEntry::Removed(l1[i - 1]))
    } else {
        seq![DiffEntry::Blank]
    }
}

/// Walks a filled table back into the diff of the first `i` lines of
/// `lines1` against the first `j` lines of `lines2`, oldest line first.
pub fn diff_lines(
    lcs_table: &Grid,
    lines1: &Vec<String>,
    lines2: &Vec<String>,
    i: usize,
    j: usize,
) -> (r: Vec<DiffEntry>)
    requires
        lcs_table.wf(),
        i <= lines1@.len(),
        j <= lines2@.len(),
    ensures
        r@ == spec_diff(*lcs_table, lines1@, lines2@, i as nat, j as nat),
    decreases i + j,
{
    if i > 0 && j > 0 && lines1[i - 1] == lines2[j - 1] {
        let mut r = diff_lines(lcs_table, lines1, lines2, i - 1, j - 1);
        r.push(DiffEntry::Same(lines1[i - 1].clone()));
        return r;
    }
    let second = if j > 0 {
        if i == 0 {
            true
        } else {
            opt_ge(lcs_table.get(i, j - 1), lcs_table.get(i - 1, j))
        }
    } else {
        false
    };
    if second {
        let mut r = diff_lines(lcs_table, lines1, lines2, i, j - 1);
        r.push(DiffEntry::Added(lines2[j - 1].clone()));
        return r;
    }
    let third = if i > 0 {
        if j == 0 {
            true
        } else {
            !opt_ge(lcs_table.get(i, j - 1), lcs_table.get(i - 1, j))
        }
    } else {
        false
    };
    if third {
        let mut r = diff_lines(lcs_table, lines1, lines2, i - 1, j);
        r.push(DiffEntry::Removed(lines1[i - 1].clone()));
        return r;
    }
    let r: Vec<DiffEntry> = vec![DiffEntry::Blank];
    proof {
        assert(r@ =~= seq![DiffEntry::Blank]);
    }
    r
}

} // verus!
