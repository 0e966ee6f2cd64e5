//! Accumulation of the per-position tag-score matrices: each occurrence of
//! a left-, right- or self-model pattern lays rows of `T` weights into the
//! row-major matrices, or appends a self-weight record.

use crate::scores::{lemma_wrap32_add, lemma_wrap32_id, matches_end, wadd, wrap32};
use crate::sentence::SelfWeight;
use crate::text::copy_weights;
use vstd::arithmetic::div_mod::lemma_fundamental_div_mod;
use vstd::arithmetic::mul::lemma_mul_inequality;
use vstd::prelude::*;

verus! {

/// The value of cell `(rr, c)` of a row-major matrix of `tcount` columns.
pub open spec fn cell(m: Seq<i32>, tcount: int, rr: int, c: int) -> int {
    m[rr * tcount + c] as int
}

/// Distinct (row, column) pairs denote distinct row-major indices.
proof fn lemma_row_major_distinct(tcount: int, rr: int, c: int, rr2: int, c2: int)
    by (nonlinear_arith)
    requires
        tcount >= 1,
        0 <= c < tcount,
        0 <= c2 < tcount,
        rr * tcount + c == rr2 * tcount + c2,
    ensures
        rr == rr2,
        c == c2,
{
}

/// A row-major index of a cell inside the matrix is inside the matrix.
pub proof fn lemma_row_major_bound(tcount: int, nrows: int, rr: int, c: int)
    by (nonlinear_arith)
    requires
        tcount >= 1,
        0 <= c < tcount,
        0 <= rr < nrows,
    ensures
        0 <= rr * tcount + c < nrows * tcount,
{
}

/// Row chunk `q` of a weight vector of full rows lies inside the vector.
proof fn lemma_chunk_in_bounds(len: int, tcount: int, q: int)
    requires
        tcount >= 1,
        0 <= q < len / tcount,
    ensures
        0 <= q * tcount,
        (q + 1) * tcount <= len,
    decreases 0int,
{
    lemma_fundamental_div_mod(len, tcount);
    lemma_mul_inequality(q + 1, len / tcount, tcount);
    assert(0 <= q * tcount) by (nonlinear_arith)
        requires
            q >= 0,
            tcount >= 1,
    ;
}

/// The contribution of one pattern occurrence whose weight rows start at
/// matrix row `ps` to the cell `(rr, c)`: entry `c` of row chunk `rr - ps`
/// of `w`, where `w` holds `w.len() / tcount` chunks of `tcount` weights.
pub open spec fn chunk_slot(w: Seq<i32>, tcount: int, ps: int, rr: int, c: int) -> int {
    let q = rr - ps;
    if 0 <= q < (w.len() as int) / tcount {
        w[q * tcount + c] as int
    } else {
        0
    }
}

/// Sum over the occurrences of one left-model pattern (ends below `ecnt`)
/// of its contribution to cell `(rr, c)`: the chunks of an occurrence
/// ending at `pe` start at row `pe + 1 - |p|`, the occurrence's start.
pub open spec fn left_entry_sum(
    p: Seq<char>,
    w: Seq<i32>,
    phay: Seq<char>,
    tcount: int,
    rr: int,
    c: int,
    ecnt: int,
) -> int
    decreases ecnt,
{
    if ecnt <= 0 {
        0
    } else {
        left_entry_sum(p, w, phay, tcount, rr, c, ecnt - 1) + if matches_end(p, phay, ecnt - 1) {
            chunk_slot(w, tcount, ecnt - p.len(), rr, c)
        } else {
            0
        }
    }
}

/// Sum of `left_entry_sum` over the first `kcnt` left-model patterns.
pub open spec fn left_cells_sum(
    pats: Seq<Vec<char>>,
    ws: Seq<Vec<i32>>,
    phay: Seq<char>,
    tcount: int,
    rr: int,
    c: int,
    kcnt: int,
) -> int
    decreases kcnt,
{
    if kcnt <= 0 {
        0
    } else {
        left_cells_sum(pats, ws, phay, tcount, rr, c, kcnt - 1) + left_entry_sum(
            pats[kcnt - 1]@,
            ws[kcnt - 1]@,
            phay,
            tcount,
            rr,
            c,
            phay.len() as int,
        )
    }
}

/// Sum over the occurrences of one right-model pattern (ends below `ecnt`)
/// of its contribution to cell `(rr, c)`: the chunks of an occurrence
/// ending at `pe` start at row `pe - 1 - win`.
pub open spec fn right_entry_sum(
    p: Seq<char>,
    w: Seq<i32>,
    phay: Seq<char>,
    tcount: int,
    win: int,
    rr: int,
    c: int,
    ecnt: int,
) -> int
    decreases ecnt,
{
    if ecnt <= 0 {
        0
    } else {
        right_entry_sum(p, w, phay, tcount, win, rr, c, ecnt - 1) + if matches_end(
            p,
            phay,
            ecnt - 1,
        ) {
            chunk_slot(w, tcount, ecnt - 2 - win, rr, c)
        } else {
            0
        }
    }
}

/// Sum of `right_entry_sum` over the first `kcnt` right-model patterns.
pub open spec fn right_cells_sum(
    pats: Seq<Vec<char>>,
    ws: Seq<Vec<i32>>,
    phay: Seq<char>,
    tcount: int,
    win: int,
    rr: int,
    c: int,
    kcnt: int,
) -> int
    decreases kcnt,
{
    if kcnt <= 0 {
        0
    } else {
        right_cells_sum(pats, ws, phay, tcount, win, rr, c, kcnt - 1) + right_entry_sum(
            pats[kcnt - 1]@,
            ws[kcnt - 1]@,
            phay,
            tcount,
            win,
            rr,
            c,
            phay.len() as int,
        )
    }
}

/// Adds weight chunk `q` of `w` into matrix row `row`.
fn add_tag_row(mat: &mut Vec<i32>, nrows: usize, tcount: usize, row: usize, w: &Vec<i32>, q: usize)
    requires
        tcount >= 1,
        old(mat)@.len() == nrows * tcount,
        nrows * tcount <= usize::MAX,
        row < nrows,
        q < (w@.len() as int) / (tcount as int),
    ensures
        final(mat)@.len() == old(mat)@.len(),
        forall|rr: int, c: int|
            0 <= rr < nrows && 0 <= c < tcount ==> cell(final(mat)@, tcount as int, rr, c) == (if rr
                == row {
                wrap32(cell(old(mat)@, tcount as int, rr, c) + w@[q * tcount + c])
            } else {
                cell(old(mat)@, tcount as int, rr, c)
            }),
{
    let ghost orig = mat@;
    let wlen = w.len();
    proof {
        lemma_chunk_in_bounds(w@.len() as int, tcount as int, q as int);
    }
    let mut c: usize = 0;
    while c < tcount
        invariant
            c <= tcount,
            tcount >= 1,
            row < nrows,
            mat@.len() == orig.len(),
            orig.len() == nrows * tcount,
            nrows * tcount <= usize::MAX,
            q * tcount >= 0,
            (q + 1) * tcount <= w@.len(),
            wlen == w@.len(),
            forall|rr2: int, c2: int|
                0 <= rr2 < nrows && 0 <= c2 < tcount ==> cell(mat@, tcount as int, rr2, c2) == (if rr2
                    == row && c2 < c {
                    wrap32(cell(orig, tcount as int, rr2, c2) + w@[q * tcount + c2])
                } else {
                    cell(orig, tcount as int, rr2, c2)
                }),
        decreases tcount - c,
    {
        proof {
            lemma_row_major_bound(tcount as int, nrows as int, row as int, c as int);
        }
        let fi = row * tcount + c;
        proof {
            assert(q * tcount + c < (q + 1) * tcount) by (nonlinear_arith)
                requires
                    c < tcount,
                    q >= 0,
                    tcount >= 1,
            ;
        }
        let wq = q * tcount + c;
        let ghost prev = mat@;
        let v = wadd(mat[fi], w[wq]);
        mat.set(fi, v);
        proof {
            assert forall|rr2: int, c2: int|
                0 <= rr2 < nrows && 0 <= c2 < tcount implies cell(mat@, tcount as int, rr2, c2) == (
            if rr2 == row && c2 < c + 1 {
                wrap32(cell(orig, tcount as int, rr2, c2) + w@[q * tcount + c2])
            } else {
                cell(orig, tcount as int, rr2, c2)
            }) by {
                lemma_row_major_bound(tcount as int, nrows as int, rr2, c2);
                assert(cell(prev, tcount as int, rr2, c2) == (if rr2 == row && c2 < c {
                    wrap32(cell(orig, tcount as int, rr2, c2) + w@[q * tcount + c2])
                } else {
                    cell(orig, tcount as int, rr2, c2)
                }));
                if rr2 * tcount + c2 == row * tcount + c {
                    lemma_row_major_distinct(tcount as int, rr2, c2, row as int, c as int);
                    assert(rr2 == row && c2 == c);
                    assert(mat@[rr2 * tcount + c2] == mat@[row * tcount + c]);
                    assert(cell(mat@, tcount as int, rr2, c2) == wrap32(cell(prev, tcount as int, row as int, c as int) + w@[q * tcount + c]));
                } else {
                    assert(cell(mat@, tcount as int, rr2, c2) == cell(prev, tcount as int, rr2, c2));
                }
            }
        }
        c += 1;
    }
}

/// Adds every full row chunk of `w` into the matrix, chunk `q` into row
/// `ps_plus - ps_minus + q`; chunks aimed outside the matrix are dropped.
fn add_chunks(
    mat: &mut Vec<i32>,
    nrows: usize,
    tcount: usize,
    w: &Vec<i32>,
    ps_plus: usize,
    ps_minus: usize,
)
    requires
        tcount >= 1,
        old(mat)@.len() == nrows * tcount,
        nrows * tcount <= usize::MAX,
        nrows + ps_minus <= usize::MAX,
    ensures
        final(mat)@.len() == old(mat)@.len(),
        forall|rr: int, c: int|
            0 <= rr < nrows && 0 <= c < tcount ==> cell(final(mat)@, tcount as int, rr, c) == wrap32(
                cell(old(mat)@, tcount as int, rr, c) + chunk_slot(
                    w@,
                    tcount as int,
                    ps_plus - ps_minus,
                    rr,
                    c,
                ),
            ),
{
    let ghost orig = mat@;
    let nchunks = w.len() / tcount;
    let mut row: usize = 0;
    while row < nrows
        invariant
            row <= nrows,
            tcount >= 1,
            nrows + ps_minus <= usize::MAX,
            nchunks == (w@.len() as int) / (tcount as int),
            mat@.len() == orig.len(),
            orig.len() == nrows * tcount,
            nrows * tcount <= usize::MAX,
            forall|rr: int, c: int|
                0 <= rr < nrows && 0 <= c < tcount ==> cell(mat@, tcount as int, rr, c) == (if rr
                    < row {
                    wrap32(cell(orig, tcount as int, rr, c) + chunk_slot(
                        w@,
                        tcount as int,
                        ps_plus - ps_minus,
                        rr,
                        c,
                    ))
                } else {
                    cell(orig, tcount as int, rr, c)
                }),
        decreases nrows - row,
    {
        let ghost prev = mat@;
        if row + ps_minus >= ps_plus && row + ps_minus - ps_plus < nchunks {
            let q = row + ps_minus - ps_plus;
            add_tag_row(mat, nrows, tcount, row, w, q);
        }
        proof {
            assert forall|rr: int, c: int|
                0 <= rr < nrows && 0 <= c < tcount implies cell(mat@, tcount as int, rr, c) == (if rr
                < row + 1 {
                wrap32(cell(orig, tcount as int, rr, c) + chunk_slot(
                    w@,
                    tcount as int,
                    ps_plus - ps_minus,
                    rr,
                    c,
                ))
            } else {
                cell(orig, tcount as int, rr, c)
            }) by {
                let slot = chunk_slot(w@, tcount as int, ps_plus - ps_minus, rr, c);
                if rr == row {
                    if !(row + ps_minus >= ps_plus && row + ps_minus - ps_plus < nchunks) {
                        assert(slot == 0);
                        lemma_wrap32_id(cell(orig, tcount as int, rr, c));
                    }
                }
            }
        }
        row += 1;
    }
}

/// Adds, for every occurrence of every left-model pattern in the padded
/// haystack, the pattern's weight rows into the left-score matrix starting
/// at the row of the occurrence's first position.
pub fn add_left_scores(
    pats: &Vec<Vec<char>>,
    ws: &Vec<Vec<i32>>,
    phay: &Vec<char>,
    tcount: usize,
    nrows: usize,
    mat: &mut Vec<i32>,
)
    requires
        tcount >= 1,
        pats@.len() == ws@.len(),
        old(mat)@.len() == nrows * tcount,
        nrows * tcount <= usize::MAX,
        nrows + phay@.len() <= usize::MAX,
    ensures
        final(mat)@.len() == old(mat)@.len(),
        forall|rr: int, c: int|
            0 <= rr < nrows && 0 <= c < tcount ==> cell(final(mat)@, tcount as int, rr, c) == wrap32(
                cell(old(mat)@, tcount as int, rr, c) + left_cells_sum(
                    pats@,
                    ws@,
                    phay@,
                    tcount as int,
                    rr,
                    c,
                    pats@.len() as int,
                ),
            ),
{
    let ghost orig = mat@;
    let mut k: usize = 0;
    while k < pats.len()
        invariant
            k <= pats@.len(),
            tcount >= 1,
            pats@.len() == ws@.len(),
            nrows + phay@.len() <= usize::MAX,
            mat@.len() == orig.len(),
            orig.len() == nrows * tcount,
            nrows * tcount <= usize::MAX,
            forall|rr: int, c: int|
                0 <= rr < nrows && 0 <= c < tcount ==> cell(mat@, tcount as int, rr, c) == wrap32(
                    cell(orig, tcount as int, rr, c) + left_cells_sum(
                        pats@,
                        ws@,
                        phay@,
                        tcount as int,
                        rr,
                        c,
                        k as int,
                    ),
                ),
        decreases pats@.len() - k,
    {
        let mut e: usize = 0;
        while e < phay.len()
            invariant
                e <= phay@.len(),
                k < pats@.len(),
                tcount >= 1,
                pats@.len() == ws@.len(),
                nrows + phay@.len() <= usize::MAX,
                mat@.len() == orig.len(),
                orig.len() == nrows * tcount,
                nrows * tcount <= usize::MAX,
                forall|rr: int, c: int|
                    0 <= rr < nrows && 0 <= c < tcount ==> cell(mat@, tcount as int, rr, c) == wrap32(
                        cell(orig, tcount as int, rr, c) + left_cells_sum(
                            pats@,
                            ws@,
                            phay@,
                            tcount as int,
                            rr,
                            c,
                            k as int,
                        ) + left_entry_sum(
                            pats@[k as int]@,
                            ws@[k as int]@,
                            phay@,
                            tcount as int,
                            rr,
                            c,
                            e as int,
                        ),
                    ),
            decreases phay@.len() - e,
        {
            if crate::scores::is_match_end_chars(&pats[k], phay, e) {
                let m = pats[k].len();
                let ghost prev = mat@;
                add_chunks(mat, nrows, tcount, &ws[k], e + 1, m);
                proof {
                    assert forall|rr: int, c: int|
                        0 <= rr < nrows && 0 <= c < tcount implies cell(mat@, tcount as int, rr, c)
                        == wrap32(
                        cell(orig, tcount as int, rr, c) + left_cells_sum(
                            pats@,
                            ws@,
                            phay@,
                            tcount as int,
                            rr,
                            c,
                            k as int,
                        ) + left_entry_sum(
                            pats@[k as int]@,
                            ws@[k as int]@,
                            phay@,
                            tcount as int,
                            rr,
                            c,
                            e + 1,
                        ),
                    ) by {
                        let s0 = cell(orig, tcount as int, rr, c) + left_cells_sum(
                            pats@,
                            ws@,
                            phay@,
                            tcount as int,
                            rr,
                            c,
                            k as int,
                        ) + left_entry_sum(
                            pats@[k as int]@,
                            ws@[k as int]@,
                            phay@,
                            tcount as int,
                            rr,
                            c,
                            e as int,
                        );
                        let d = chunk_slot(
                            ws@[k as int]@,
                            tcount as int,
                            e + 1 - m,
                            rr,
                            c,
                        );
                        assert(cell(mat@, tcount as int, rr, c) == wrap32(cell(prev, tcount as int, rr, c) + d));
                        lemma_wrap32_add(s0, d);
                    }
                }
            }
            e += 1;
        }
        k += 1;
    }
}

/// Adds, for every occurrence of every right-model pattern in the padded
/// haystack, the pattern's weight rows into the right-score matrix starting
/// `win + 1` rows before the occurrence's end.
pub fn add_right_scores(
    pats: &Vec<Vec<char>>,
    ws: &Vec<Vec<i32>>,
    phay: &Vec<char>,
    tcount: usize,
    win: usize,
    nrows: usize,
    mat: &mut Vec<i32>,
)
    requires
        tcount >= 1,
        pats@.len() == ws@.len(),
        old(mat)@.len() == nrows * tcount,
        nrows * tcount <= usize::MAX,
        nrows + win + 1 <= usize::MAX,
    ensures
        final(mat)@.len() == old(mat)@.len(),
        forall|rr: int, c: int|
            0 <= rr < nrows && 0 <= c < tcount ==> cell(final(mat)@, tcount as int, rr, c) == wrap32(
                cell(old(mat)@, tcount as int, rr, c) + right_cells_sum(
                    pats@,
                    ws@,
                    phay@,
                    tcount as int,
                    win as int,
                    rr,
                    c,
                    pats@.len() as int,
                ),
            ),
{
    let ghost orig = mat@;
    let mut k: usize = 0;
    while k < pats.len()
        invariant
            k <= pats@.len(),
            tcount >= 1,
            pats@.len() == ws@.len(),
            nrows + win + 1 <= usize::MAX,
            mat@.len() == orig.len(),
            orig.len() == nrows * tcount,
            nrows * tcount <= usize::MAX,
            forall|rr: int, c: int|
                0 <= rr < nrows && 0 <= c < tcount ==> cell(mat@, tcount as int, rr, c) == wrap32(
                    cell(orig, tcount as int, rr, c) + right_cells_sum(
                        pats@,
                        ws@,
                        phay@,
                        tcount as int,
                        win as int,
                        rr,
                        c,
                        k as int,
                    ),
                ),
        decreases pats@.len() - k,
    {
        let mut e: usize = 0;
        while e < phay.len()
            invariant
                e <= phay@.len(),
                k < pats@.len(),
                tcount >= 1,
                pats@.len() == ws@.len(),
                nrows + win + 1 <= usize::MAX,
                mat@.len() == orig.len(),
                orig.len() == nrows * tcount,
                nrows * tcount <= usize::MAX,
                forall|rr: int, c: int|
                    0 <= rr < nrows && 0 <= c < tcount ==> cell(mat@, tcount as int, rr, c) == wrap32(
                        cell(orig, tcount as int, rr, c) + right_cells_sum(
                            pats@,
                            ws@,
                            phay@,
                            tcount as int,
                            win as int,
                            rr,
                            c,
                            k as int,
                        ) + right_entry_sum(
                            pats@[k as int]@,
                            ws@[k as int]@,
                            phay@,
                            tcount as int,
                            win as int,
                            rr,
                            c,
                            e as int,
                        ),
                    ),
            decreases phay@.len() - e,
        {
            if crate::scores::is_match_end_chars(&pats[k], phay, e) {
                let ghost prev = mat@;
                add_chunks(mat, nrows, tcount, &ws[k], e, win + 1);
                proof {
                    assert forall|rr: int, c: int|
                        0 <= rr < nrows && 0 <= c < tcount implies cell(mat@, tcount as int, rr, c)
                        == wrap32(
                        cell(orig, tcount as int, rr, c) + right_cells_sum(
                            pats@,
                            ws@,
                            phay@,
                            tcount as int,
                            win as int,
                            rr,
                            c,
                            k as int,
                        ) + right_entry_sum(
                            pats@[k as int]@,
                            ws@[k as int]@,
                            phay@,
                            tcount as int,
                            win as int,
                            rr,
                            c,
                            e + 1,
                        ),
                    ) by {
                        let s0 = cell(orig, tcount as int, rr, c) + right_cells_sum(
                            pats@,
                            ws@,
                            phay@,
                            tcount as int,
                            win as int,
                            rr,
                            c,
                            k as int,
                        ) + right_entry_sum(
                            pats@[k as int]@,
                            ws@[k as int]@,
                            phay@,
                            tcount as int,
                            win as int,
                            rr,
                            c,
                            e as int,
                        );
                        let d = chunk_slot(
                            ws@[k as int]@,
                            tcount as int,
                            e - 1 - win,
                            rr,
                            c,
                        );
                        assert(cell(mat@, tcount as int, rr, c) == wrap32(cell(prev, tcount as int, rr, c) + d));
                        lemma_wrap32_add(s0, d);
                    }
                }
            }
            e += 1;
        }
        k += 1;
    }
}

/// One self-weight record as a mathematical value: the relative start
/// position and the weight row.
pub type SelfRecord = (int, Seq<i32>);

/// The records contributed to position `e` by patterns of length exactly
/// `m`, over the first `kcnt` self-model patterns, in pattern order.
pub open spec fn self_records_at_len(
    pats: Seq<Vec<char>>,
    ws: Seq<Vec<i32>>,
    hay: Seq<char>,
    e: int,
    m: int,
    kcnt: int,
) -> Seq<SelfRecord>
    decreases kcnt,
{
    if kcnt <= 0 {
        Seq::empty()
    } else {
        let pre = self_records_at_len(pats, ws, hay, e, m, kcnt - 1);
        if pats[kcnt - 1]@.len() == m && matches_end(pats[kcnt - 1]@, hay, e) {
            pre + seq![(-m, ws[kcnt - 1]@)]
        } else {
            pre
        }
    }
}

/// The records contributed to position `e` by patterns of length up to
/// `mcnt`, shortest patterns first.
pub open spec fn self_records_upto(
    pats: Seq<Vec<char>>,
    ws: Seq<Vec<i32>>,
    hay: Seq<char>,
    e: int,
    mcnt: int,
) -> Seq<SelfRecord>
    decreases mcnt,
{
    if mcnt <= 0 {
        Seq::empty()
    } else {
        self_records_upto(pats, ws, hay, e, mcnt - 1) + self_records_at_len(
            pats,
            ws,
            hay,
            e,
            mcnt,
            pats.len() as int,
        )
    }
}

/// All self-weight records of position `e`: one per occurrence of a
/// self-model pattern ending at `e`, with relative start `-|p|`, ordered by
/// decreasing relative start (shortest patterns first).
pub open spec fn self_records(
    pats: Seq<Vec<char>>,
    ws: Seq<Vec<i32>>,
    hay: Seq<char>,
    e: int,
) -> Seq<SelfRecord> {
    self_records_upto(pats, ws, hay, e, hay.len() as int)
}

/// The mathematical records of a stored self-weight list.
pub open spec fn self_views(l: Seq<SelfWeight>) -> Seq<SelfRecord> {
    Seq::new(l.len(), |k: int| (l[k].start_rel_position as int, l[k].weight@))
}

/// Collects the self-weight records of position `e`, shortest patterns
/// first.
pub fn collect_self_records(
    pats: &Vec<Vec<char>>,
    ws: &Vec<Vec<i32>>,
    hay: &Vec<char>,
    e: usize,
) -> (r: Vec<SelfWeight>)
    requires
        pats@.len() == ws@.len(),
        e < hay@.len(),
        hay@.len() < 0x8000_0000,
    ensures
        self_views(r@) == self_records(pats@, ws@, hay@, e as int),
{
    let mut out: Vec<SelfWeight> = Vec::new();
    let n = hay.len();
    let mut m: usize = 1;
    while m <= n
        invariant
            1 <= m <= n + 1,
            n == hay@.len(),
            n < 0x8000_0000,
            e < n,
            pats@.len() == ws@.len(),
            self_views(out@) == self_records_upto(pats@, ws@, hay@, e as int, m - 1),
        decreases n + 1 - m,
    {
        let mut k: usize = 0;
        while k < pats.len()
            invariant
                k <= pats@.len(),
                1 <= m <= n,
                n == hay@.len(),
                n < 0x8000_0000,
                e < n,
                pats@.len() == ws@.len(),
                self_views(out@) == self_records_upto(pats@, ws@, hay@, e as int, m - 1)
                    + self_records_at_len(pats@, ws@, hay@, e as int, m as int, k as int),
            decreases pats@.len() - k,
        {
            if pats[k].len() == m && crate::scores::is_match_end_chars(&pats[k], hay, e) {
                let srp: i32 = -(m as i32);
                let w = copy_weights(&ws[k]);
                let ghost before = self_views(out@);
                out.push(SelfWeight { start_rel_position: srp, weight: w });
                proof {
                    assert(self_views(out@) =~= before + seq![
                        (-(m as int), ws@[k as int]@),
                    ]);
                }
            }
            k += 1;
        }
        proof {
            assert(self_records_upto(pats@, ws@, hay@, e as int, m as int)
                == self_records_upto(pats@, ws@, hay@, e as int, m - 1) + self_records_at_len(
                pats@,
                ws@,
                hay@,
                e as int,
                m as int,
                pats@.len() as int,
            ));
        }
        m += 1;
    }
    proof {
        assert(self_records(pats@, ws@, hay@, e as int) == self_records_upto(
            pats@,
            ws@,
            hay@,
            e as int,
            n as int,
        ));
    }
    out
}

} // verus!
