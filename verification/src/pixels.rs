use vstd::prelude::*;

verus! {

/// Where row `row` begins in an image of `width` pixels to the row, each
/// pixel taking four bytes.
pub open spec fn row_start(width: int, row: int) -> int {
    4 * row * width
}

/// The rows from `first` up to, not including, `end` of an image of `width`
/// pixels to the row, the last of them first, and of each row the first
/// `columns` pixels.
pub open spec fn flipped_rows(pixels: Seq<u8>, width: int, first: int, end: int, columns: int) -> Seq<u8>
    decreases end - first,
{
    if end <= first {
        Seq::empty()
    } else {
        pixels.subrange(row_start(width, end - 1), row_start(width, end - 1) + 4 * columns)
            + flipped_rows(pixels, width, first, end - 1, columns)
    }
}

/// The rows keep their lengths: what comes out holds four bytes for each
/// column of each row.
pub proof fn lemma_flipped_rows_len(pixels: Seq<u8>, width: int, first: int, end: int, columns: int)
    requires
        0 <= first <= end,
        0 <= width,
        0 <= columns,
        first < end ==> row_start(width, end - 1) + 4 * columns <= pixels.len(),
    ensures
        flipped_rows(pixels, width, first, end, columns).len() == 4 * columns * (end - first),
    decreases end - first,
{
    if first < end {
        if first < end - 1 {
            assert(row_start(width, end - 2) <= row_start(width, end - 1)) by (nonlinear_arith)
                requires
                    0 <= width,
            ;
        }
        lemma_flipped_rows_len(pixels, width, first, end - 1, columns);
        assert(row_start(width, end - 1) >= 0) by (nonlinear_arith)
            requires
                0 <= width,
                0 < end,
        ;
        assert(4 * columns * (end - first) == 4 * columns + 4 * columns * (end - 1 - first))
            by (nonlinear_arith);
    } else {
        assert(4 * columns * (end - first) == 0) by (nonlinear_arith)
            requires
                end == first,
        ;
    }
}

/// Cuts the rows from `first` up to `end` out of an image that was read
/// bottom row first, and turns them top row first. The image has `width`
/// pixels of four bytes to the row; of each row the first `columns` pixels
/// are kept.
pub fn flip_rows(pixels: &[u8], width: usize, first: usize, end: usize, columns: usize) -> (r: Vec<u8>)
    requires
        first <= end,
        first < end ==> row_start(width as int, end - 1) + 4 * columns <= pixels@.len(),
    ensures
        r@ == flipped_rows(pixels@, width as int, first as int, end as int, columns as int),
        r@.len() == 4 * columns * (end - first),
{
    let total = pixels.len();
    let mut rows: Vec<u8> = Vec::new();
    let mut row = end;
    proof {
        lemma_flipped_rows_len(pixels@, width as int, first as int, end as int, columns as int);
    }
    while row > first
        invariant
            first <= row <= end,
            total == pixels@.len(),
            first < end ==> row_start(width as int, end - 1) + 4 * columns <= pixels@.len(),
            rows@ + flipped_rows(pixels@, width as int, first as int, row as int, columns as int)
                == flipped_rows(pixels@, width as int, first as int, end as int, columns as int),
        decreases row - first,
    {
        row -= 1;
        assert(0 <= row_start(width as int, row as int) <= row_start(width as int, end - 1))
            by (nonlinear_arith)
            requires
                0 <= row <= end - 1,
                0 <= width,
        ;
        assert(row_start(width as int, row as int) == 4 * (row * width)) by (nonlinear_arith);
        assert(row * width <= total);
        let start = 4 * (row * width);
        let ghost before = rows@;
        rows.extend_from_slice(&pixels[start..start + 4 * columns]);
        assert(rows@ =~= before + pixels@.subrange(start as int, start + 4 * columns));
        assert((before + pixels@.subrange(start as int, start + 4 * columns)) + flipped_rows(
            pixels@,
            width as int,
            first as int,
            row as int,
            columns as int,
        ) =~= before + flipped_rows(
            pixels@,
            width as int,
            first as int,
            row + 1,
            columns as int,
        ));
    }
    assert(rows@ + Seq::<u8>::empty() =~= rows@);
    rows
}

} // verus!
