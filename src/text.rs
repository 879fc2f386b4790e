//! Text as sequences of characters: rows, blocks of rows laid side by side,
//! and counting what occurs in a text.

use vstd::prelude::*;

verus! {

/// `n` blanks.
pub open spec fn spaces(n: nat) -> Seq<char> {
    Seq::new(n, |_i: int| ' ')
}

/// Rows joined into one text, with a newline between each two of them.
pub open spec fn join_lines(rows: Seq<Seq<char>>) -> Seq<char>
    decreases rows.len(),
{
    if rows.len() == 0 {
        Seq::empty()
    } else if rows.len() == 1 {
        rows[0]
    } else {
        join_lines(rows.drop_last()) + seq!['\n'] + rows.last()
    }
}

/// Row `i` of blocks laid side by side: row `i` of each block, in order, with
/// nothing between them.
pub open spec fn row_across(blocks: Seq<Seq<Seq<char>>>, i: int) -> Seq<char>
    decreases blocks.len(),
{
    if blocks.len() == 0 {
        Seq::empty()
    } else {
        row_across(blocks.drop_last(), i) + blocks.last()[i]
    }
}

/// The `height` rows of blocks laid side by side.
pub open spec fn side_by_side(blocks: Seq<Seq<Seq<char>>>, height: nat) -> Seq<Seq<char>> {
    Seq::new(height, |i: int| row_across(blocks, i))
}

/// The rows of each block of strings, as character sequences.
pub open spec fn block_views(blocks: Seq<Vec<String>>) -> Seq<Seq<Seq<char>>> {
    blocks.map_values(|b: Vec<String>| b@.map_values(|s: String| s@))
}

/// How many times `pat` occurs in `s`, overlapping occurrences included.
pub open spec fn occurrences(s: Seq<char>, pat: Seq<char>) -> nat
    decreases s.len(),
{
    if pat.len() == 0 || s.len() < pat.len() {
        0
    } else {
        (if s.subrange(0, pat.len() as int) == pat { 1nat } else { 0nat })
            + occurrences(s.drop_first(), pat)
    }
}

/// How many times `pat` occurs in the rows, counted row by row.
pub open spec fn rows_occurrences(rows: Seq<Seq<char>>, pat: Seq<char>) -> nat
    decreases rows.len(),
{
    if rows.len() == 0 {
        0
    } else {
        rows_occurrences(rows.drop_last(), pat) + occurrences(rows.last(), pat)
    }
}

/// Occurrences in a concatenation add up, when no occurrence can straddle
/// the seam: the pattern is one character, or does not hold the first
/// character after the seam.
pub proof fn lemma_occurrences_concat(a: Seq<char>, b: Seq<char>, pat: Seq<char>)
    requires
        pat.len() > 0,
        pat.len() == 1 || (b.len() > 0 && !pat.contains(b[0])),
    ensures
        occurrences(a + b, pat) == occurrences(a, pat) + occurrences(b, pat),
    decreases a.len(),
{
    if a.len() == 0 {
        assert(a + b =~= b);
    } else {
        let ab = a + b;
        assert(ab.drop_first() =~= a.drop_first() + b);
        lemma_occurrences_concat(a.drop_first(), b, pat);
        if a.len() >= pat.len() {
            assert(ab.subrange(0, pat.len() as int) =~= a.subrange(0, pat.len() as int));
        } else if ab.len() >= pat.len() {
            let k = a.len() as int;
            assert(ab.subrange(0, pat.len() as int)[k] == b[0]);
            if ab.subrange(0, pat.len() as int) == pat {
                assert(pat[k] == b[0]);
            }
        }
    }
}

/// A text without the first character of a pattern holds no occurrence of it.
pub proof fn lemma_occurrences_absent(s: Seq<char>, pat: Seq<char>)
    requires
        pat.len() > 0,
        forall|k: int| 0 <= k < s.len() ==> s[k] != pat[0],
    ensures
        occurrences(s, pat) == 0,
    decreases s.len(),
{
    if s.len() >= pat.len() {
        assert(s.subrange(0, pat.len() as int)[0] != pat[0]);
        lemma_occurrences_absent(s.drop_first(), pat);
    }
}

/// A prefix without the first character of a pattern can be skipped when
/// counting its occurrences.
pub proof fn lemma_occurrences_skip(s: Seq<char>, pat: Seq<char>, n: int)
    requires
        pat.len() > 0,
        0 <= n <= s.len(),
        forall|k: int| 0 <= k < n ==> s[k] != pat[0],
    ensures
        occurrences(s, pat) == occurrences(s.skip(n), pat),
    decreases n,
{
    if n > 0 {
        if s.len() >= pat.len() {
            assert(s.subrange(0, pat.len() as int)[0] != pat[0]);
        }
        assert(s.drop_first().skip(n - 1) =~= s.skip(n));
        lemma_occurrences_skip(s.drop_first(), pat, n - 1);
    } else {
        assert(s.skip(0) =~= s);
    }
}

/// A text that starts with a pattern and holds its first character nowhere
/// else holds it once.
pub proof fn lemma_occurrences_once_at_start(s: Seq<char>, pat: Seq<char>)
    requires
        pat.len() > 0,
        s.len() >= pat.len(),
        s.subrange(0, pat.len() as int) == pat,
        forall|k: int| 1 <= k < s.len() ==> s[k] != pat[0],
    ensures
        occurrences(s, pat) == 1,
{
    lemma_occurrences_absent(s.drop_first(), pat);
}

/// Rows that each hold no occurrence hold none together.
pub proof fn lemma_rows_occurrences_none(rows: Seq<Seq<char>>, pat: Seq<char>)
    requires
        forall|i: int| 0 <= i < rows.len() ==> occurrences(#[trigger] rows[i], pat) == 0,
    ensures
        rows_occurrences(rows, pat) == 0,
    decreases rows.len(),
{
    if rows.len() > 0 {
        let init = rows.drop_last();
        assert(forall|i: int| 0 <= i < init.len() ==> init[i] == rows[i]);
        lemma_rows_occurrences_none(init, pat);
    }
}

/// Occurrences in rows joined by newlines are those of the rows, when the
/// pattern holds no newline and cannot straddle the start of a row.
pub proof fn lemma_occurrences_join(rows: Seq<Seq<char>>, pat: Seq<char>)
    requires
        pat.len() > 0,
        !pat.contains('\n'),
        pat.len() == 1 || forall|i: int|
            0 <= i < rows.len() ==> #[trigger] rows[i].len() > 0 && !pat.contains(rows[i][0]),
    ensures
        occurrences(join_lines(rows), pat) == rows_occurrences(rows, pat),
    decreases rows.len(),
{
    if rows.len() == 1 {
        assert(rows.drop_last() =~= Seq::<Seq<char>>::empty());
    } else if rows.len() > 1 {
        let init = rows.drop_last();
        assert(forall|i: int| 0 <= i < init.len() ==> init[i] == rows[i]);
        lemma_occurrences_join(init, pat);
        let nl = seq!['\n'];
        if pat.len() > 1 {
            assert(rows[rows.len() - 1].len() > 0);
        }
        lemma_occurrences_concat(join_lines(init) + nl, rows.last(), pat);
        if pat.len() > 1 {
            assert(nl[0] == '\n');
            assert(!pat.contains(nl[0]));
        }
        lemma_occurrences_concat(join_lines(init), nl, pat);
        if pat[0] == '\n' {
            assert(pat.contains('\n'));
        }
        lemma_occurrences_absent(nl, pat);
        assert(occurrences(nl, pat) == 0);
        assert(occurrences(join_lines(init) + nl, pat) == occurrences(join_lines(init), pat));
        assert(join_lines(rows) == join_lines(init) + nl + rows.last());
        assert(occurrences(join_lines(init) + nl, pat) == rows_occurrences(init, pat));
        assert(rows_occurrences(rows, pat) == rows_occurrences(init, pat) + occurrences(rows.last(), pat));
    }
}

/// Row counts of two runs of rows add up.
pub proof fn lemma_rows_occurrences_concat(x: Seq<Seq<char>>, y: Seq<Seq<char>>, pat: Seq<char>)
    ensures
        rows_occurrences(x + y, pat) == rows_occurrences(x, pat) + rows_occurrences(y, pat),
    decreases y.len(),
{
    if y.len() == 0 {
        assert(x + y =~= x);
    } else {
        assert((x + y).drop_last() =~= x + y.drop_last());
        lemma_rows_occurrences_concat(x, y.drop_last(), pat);
    }
}

/// Row `i` across blocks whose row `i` is `w` characters wide, none of them
/// a newline, is `w` characters per block and holds no newline.
pub proof fn lemma_row_across_shape(blocks: Seq<Seq<Seq<char>>>, i: int, w: nat)
    requires
        forall|j: int| 0 <= j < blocks.len() ==> #[trigger] blocks[j][i].len() == w,
        forall|j: int, k: int|
            0 <= j < blocks.len() && 0 <= k < w ==> #[trigger] blocks[j][i][k] != '\n',
    ensures
        row_across(blocks, i).len() == w * blocks.len(),
        !row_across(blocks, i).contains('\n'),
    decreases blocks.len(),
{
    if blocks.len() > 0 {
        let init = blocks.drop_last();
        assert(forall|j: int| 0 <= j < init.len() ==> init[j] == blocks[j]);
        lemma_row_across_shape(init, i, w);
        let row = row_across(blocks, i);
        let last = blocks.last()[i];
        assert(row == row_across(init, i) + last);
        assert(w * blocks.len() == w * init.len() + w) by (nonlinear_arith)
            requires
                init.len() + 1 == blocks.len(),
        ;
        if row.contains('\n') {
            let k = choose|k: int| 0 <= k < row.len() && row[k] == '\n';
            if k < row_across(init, i).len() {
                assert(row_across(init, i)[k] == '\n');
            } else {
                assert(blocks[blocks.len() - 1][i][k - row_across(init, i).len()] == '\n');
            }
        }
    }
}

/// Lays blocks of `height` rows side by side and joins the rows with newlines.
pub fn compose_blocks(blocks: &Vec<Vec<String>>, height: usize) -> (r: String)
    requires
        forall|j: int| 0 <= j < blocks@.len() ==> #[trigger] blocks@[j]@.len() == height,
    ensures
        r@ == join_lines(side_by_side(block_views(blocks@), height as nat)),
{
    let ghost views = block_views(blocks@);
    let ghost rows = side_by_side(views, height as nat);
    let mut out = String::new();
    let mut k: usize = 0;
    while k < height
        invariant
            k <= height,
            views == block_views(blocks@),
            rows == side_by_side(views, height as nat),
            forall|j: int| 0 <= j < blocks@.len() ==> #[trigger] blocks@[j]@.len() == height,
            out@ == join_lines(rows.take(k as int)),
        decreases height - k,
    {
        let ghost before = out@;
        if k > 0 {
            proof {
                reveal_strlit("\n");
            }
            out.append("\n");
        }
        let ghost start = out@;
        let mut j: usize = 0;
        while j < blocks.len()
            invariant
                k < height,
                j <= blocks@.len(),
                views == block_views(blocks@),
                forall|j: int| 0 <= j < blocks@.len() ==> #[trigger] blocks@[j]@.len() == height,
                out@ == start + row_across(views.take(j as int), k as int),
                k > 0 ==> start == before + seq!['\n'],
                k == 0 ==> start == before,
            decreases blocks@.len() - j,
        {
            assert(views.take(j + 1).drop_last() =~= views.take(j as int));
            out.append(blocks[j][k].as_str());
            j = j + 1;
        }
        assert(views.take(j as int) =~= views);
        assert(rows.take(k + 1).drop_last() =~= rows.take(k as int));
        assert(rows.take(k + 1).last() == row_across(views, k as int));
        if k == 0 {
            assert(out@ =~= join_lines(rows.take(1)));
        } else {
            assert(out@ =~= before + seq!['\n'] + rows.take(k + 1).last());
        }
        k = k + 1;
    }
    assert(rows.take(height as int) =~= rows);
    out
}

} // verus!
