use vstd::prelude::*;

verus! {

/// Some assertion comment at index `i` or later starts on `row`.
pub open spec fn has_row(rows: Seq<usize>, i: int, row: int) -> bool {
    exists|j: int| i <= j < rows.len() && rows[j] as int == row
}

/// Moves `row` up while an assertion comment at index `i` or later starts on
/// it: through a block of stacked assertion comments to the code line above.
pub open spec fn walk_up(rows: Seq<usize>, i: int, row: int) -> int
    decreases row,
{
    if row > 0 && has_row(rows, i, row) {
        walk_up(rows, i, row - 1)
    } else {
        row
    }
}

/// The first index at or after `i` whose comment does not start above `row`.
pub open spec fn advance(rows: Seq<usize>, i: int, row: int) -> int
    decreases rows.len() - i,
{
    if 0 <= i < rows.len() && (rows[i] as int) < row {
        advance(rows, i + 1, row)
    } else {
        i
    }
}

/// The corrected rows of the assertions from index `k` on, where `rows` are
/// the rows of the assertion comments in the order the walk found them and
/// `i` is the shared cursor into them.
pub open spec fn corrected_from(rows: Seq<usize>, i: int, k: int) -> Seq<int>
    decreases rows.len() - k,
{
    if k < 0 || k >= rows.len() {
        seq![]
    } else {
        let r = walk_up(rows, i, rows[k] as int);
        seq![r] + corrected_from(rows, advance(rows, i, r), k + 1)
    }
}

/// The row of each assertion moved to the line of code it annotates.
pub open spec fn corrected_rows(rows: Seq<usize>) -> Seq<int> {
    corrected_from(rows, 0, 0)
}

proof fn lemma_walk_up_range(rows: Seq<usize>, i: int, row: int)
    requires
        row >= 0,
    ensures
        0 <= walk_up(rows, i, row) <= row,
    decreases row,
{
    if row > 0 && has_row(rows, i, row) {
        lemma_walk_up_range(rows, i, row - 1);
    }
}

proof fn lemma_advance_stops(rows: Seq<usize>, i: int, row: int, k: int)
    requires
        0 <= i <= k < rows.len(),
        rows[k] as int >= row,
    ensures
        i <= advance(rows, i, row) <= k,
    decreases k - i,
{
    if (rows[i] as int) < row {
        lemma_advance_stops(rows, i + 1, row, k);
    }
}

/// The rows `rows[j0]`, ..., `rows[j0 + n - 1]` are `r + 1`, ..., `r + n`, and
/// no entry is `r`: a block of assertion comments stacked under row `r`.
pub open spec fn stacked_block(rows: Seq<usize>, j0: int, n: int, r: int) -> bool {
    &&& 0 <= j0
    &&& 0 <= n
    &&& j0 + n <= rows.len()
    &&& 0 <= r
    &&& forall|j: int| j0 <= j < j0 + n ==> #[trigger] rows[j] as int == r + 1 + (j - j0)
    &&& forall|j: int| 0 <= j < rows.len() ==> rows[j] as int != r
}

proof fn lemma_walk_up_block(rows: Seq<usize>, i: int, j0: int, n: int, r: int, q: int)
    requires
        stacked_block(rows, j0, n, r),
        0 <= i <= j0,
        r <= q <= r + n,
    ensures
        walk_up(rows, i, q) == r,
    decreases q,
{
    if q > r {
        assert(rows[j0 + (q - r - 1)] as int == q);
        assert(has_row(rows, i, q));
        lemma_walk_up_block(rows, i, j0, n, r, q - 1);
    } else {
        assert(!has_row(rows, i, r));
    }
}

proof fn lemma_corrected_len(rows: Seq<usize>, i: int, k: int)
    requires
        0 <= k <= rows.len(),
    ensures
        corrected_from(rows, i, k).len() == rows.len() - k,
    decreases rows.len() - k,
{
    if k < rows.len() {
        let r = walk_up(rows, i, rows[k] as int);
        lemma_corrected_len(rows, advance(rows, i, r), k + 1);
    }
}

proof fn lemma_block_from(rows: Seq<usize>, i: int, k: int, j0: int, n: int, r: int)
    requires
        stacked_block(rows, j0, n, r),
        0 <= i <= k,
        j0 < k < j0 + n ==> i <= j0,
    ensures
        forall|m: int|
            j0 <= m < j0 + n && k <= m ==> #[trigger] corrected_from(rows, i, k)[m - k] == r,
    decreases rows.len() - k,
{
    if k < rows.len() {
        let c = walk_up(rows, i, rows[k] as int);
        lemma_walk_up_range(rows, i, rows[k] as int);
        let i2 = advance(rows, i, c);
        lemma_advance_stops(rows, i, c, k);
        if j0 <= k < j0 + n {
            lemma_walk_up_block(rows, i, j0, n, r, rows[k] as int);
            lemma_advance_stops(rows, i, c, j0);
        }
        lemma_block_from(rows, i2, k + 1, j0, n, r);
        assert(corrected_from(rows, i, k) == seq![c] + corrected_from(rows, i2, k + 1));
        lemma_corrected_len(rows, i2, k + 1);
        assert forall|m: int| j0 <= m < j0 + n && k <= m implies #[trigger] corrected_from(
            rows,
            i,
            k,
        )[m - k] == r by {
            if m > k {
                assert(corrected_from(rows, i, k)[m - k] == corrected_from(rows, i2, k + 1)[m - (k
                    + 1)]);
            }
        }
    }
}

/// Every assertion of a block of comments stacked on consecutive rows under
/// row `r`, where no assertion comment starts on row `r`, moves to row `r`.
pub proof fn lemma_stacked_block(rows: Seq<usize>, j0: int, n: int, r: int)
    requires
        stacked_block(rows, j0, n, r),
    ensures
        forall|m: int| j0 <= m < j0 + n ==> #[trigger] corrected_rows(rows)[m] == r,
{
    lemma_block_from(rows, 0, 0, j0, n, r);
    assert forall|m: int| j0 <= m < j0 + n implies #[trigger] corrected_rows(rows)[m] == r by {
        assert(corrected_from(rows, 0, 0)[m - 0] == r);
    }
}

/// Some comment at index `i` or later starts on `row`.
fn any_on_row(rows: &Vec<usize>, i: usize, row: usize) -> (r: bool)
    requires
        i <= rows@.len(),
    ensures
        r == has_row(rows@, i as int, row as int),
{
    let mut j: usize = i;
    while j < rows.len()
        invariant
            i <= j <= rows@.len(),
            forall|m: int| i <= m < j ==> rows@[m] != row,
        decreases rows@.len() - j,
    {
        if rows[j] == row {
            return true;
        }
        j = j + 1;
    }
    false
}

/// Moves each assertion's row up to the line of code it annotates. `rows`
/// holds the starting rows of the assertion comments in the order the walk
/// found them, which are also the assertions' rows before correction.
pub fn correct_rows(rows: &Vec<usize>) -> (r: Vec<usize>)
    ensures
        r@.len() == rows@.len(),
        forall|k: int| 0 <= k < r@.len() ==> r@[k] as int == corrected_rows(rows@)[k],
        forall|k: int| 0 <= k < r@.len() ==> r@[k] <= rows@[k],
{
    let mut out: Vec<usize> = Vec::new();
    let mut i: usize = 0;
    let mut k: usize = 0;
    while k < rows.len()
        invariant
            k <= rows@.len(),
            i <= rows@.len(),
            out@.len() == k,
            corrected_rows(rows@) == out@.map_values(|x: usize| x as int) + corrected_from(
                rows@,
                i as int,
                k as int,
            ),
            forall|m: int| 0 <= m < k ==> out@[m] <= rows@[m],
        decreases rows@.len() - k,
    {
        let mut row: usize = rows[k];
        proof {
            lemma_walk_up_range(rows@, i as int, rows@[k as int] as int);
        }
        while row > 0 && any_on_row(rows, i, row)
            invariant
                i <= rows@.len(),
                k < rows@.len(),
                row <= rows@[k as int],
                walk_up(rows@, i as int, rows@[k as int] as int) == walk_up(rows@, i as int, row as int),
            decreases row,
        {
            row = row - 1;
        }
        let ghost i0 = i as int;
        assert(corrected_from(rows@, i0, k as int) == seq![row as int] + corrected_from(
            rows@,
            advance(rows@, i0, row as int),
            k + 1,
        ));
        while i < rows.len() && rows[i] < row
            invariant
                i <= rows@.len(),
                advance(rows@, i0, row as int) == advance(rows@, i as int, row as int),
            decreases rows@.len() - i,
        {
            i = i + 1;
        }
        assert(advance(rows@, i as int, row as int) == i as int);
        let ghost old_out = out@;
        out.push(row);
        k = k + 1;
        proof {
            assert(out@.map_values(|x: usize| x as int) =~= old_out.map_values(|x: usize| x as int)
                + seq![row as int]);
        }
    }
    proof {
        assert(out@.map_values(|x: usize| x as int) + corrected_from(rows@, i as int, k as int)
            =~= out@.map_values(|x: usize| x as int));
    }
    out
}

} // verus!
