//! Assembly of the final image from independently produced rows.
//!
//! Each row carries the byte offset at which it belongs; merging writes the
//! row's bytes there and touches nothing else. Rows rendered at distinct row
//! numbers occupy pairwise disjoint ranges, so the assembled image does not
//! depend on the order in which the rows are merged.

use vstd::prelude::*;
use crate::row_data::RowData;

verus! {

/// Whether byte `k` of the image lies in `row`'s range.
pub open spec fn covers(row: RowData, k: int) -> bool {
    row.row_index() <= k < row.row_index() + row.bytes().len()
}

/// `img` with `row`'s bytes written at `row`'s offset.
pub open spec fn spliced(img: Seq<u8>, row: RowData) -> Seq<u8> {
    img.map(|k: int, b: u8| if covers(row, k) { row.bytes()[k - row.row_index()] } else { b })
}

/// `img` after merging the rows in order.
pub open spec fn merged(img: Seq<u8>, rows: Seq<RowData>) -> Seq<u8>
    decreases rows.len(),
{
    if rows.len() == 0 {
        img
    } else {
        spliced(merged(img, rows.drop_last()), rows.last())
    }
}

/// Every row's range lies inside the image.
pub open spec fn rows_fit(img: Seq<u8>, rows: Seq<RowData>) -> bool {
    forall|r: RowData| #[trigger] rows.contains(r) ==> r.row_index() + r.bytes().len() <= img.len()
}

/// Distinct rows occupy disjoint byte ranges.
pub open spec fn rows_disjoint(rows: Seq<RowData>) -> bool {
    forall|r1: RowData, r2: RowData|
        #[trigger] rows.contains(r1) && #[trigger] rows.contains(r2) && r1 != r2 ==> (r1.row_index()
            + r1.bytes().len() <= r2.row_index() || r2.row_index() + r2.bytes().len()
            <= r1.row_index())
}

/// A fresh image buffer of `width * height * 3` zeroed bytes.
pub fn blank_image(width: u32, height: u32) -> (r: Vec<u8>)
    requires
        width * height * 3 <= usize::MAX,
    ensures
        r@.len() == width * height * 3,
        forall|k: int| 0 <= k < r@.len() ==> r@[k] == 0,
{
    proof {
        assert((width * height) * 3 == width * height * 3) by (nonlinear_arith);
        assert(0 <= width * height <= usize::MAX) by (nonlinear_arith)
            requires
                width * height * 3 <= usize::MAX,
        ;
    }
    let n: usize = (width as usize) * (height as usize) * 3;
    let mut r: Vec<u8> = Vec::new();
    let mut k: usize = 0;
    while k < n
        invariant
            k <= n,
            r@.len() == k,
            forall|j: int| 0 <= j < k ==> r@[j] == 0,
        decreases n - k,
    {
        r.push(0);
        k += 1;
    }
    r
}

/// The byte offset at which image row `row_j` starts, for rows of `width`
/// pixels at three bytes per pixel.
pub fn row_offset(row_j: u32, width: u32) -> (r: u32)
    requires
        row_j * width * 3 <= u32::MAX,
    ensures
        r == row_j * width * 3,
{
    proof {
        assert((row_j * width) * 3 == row_j * width * 3) by (nonlinear_arith);
        assert(0 <= row_j * width <= u32::MAX) by (nonlinear_arith)
            requires
                row_j * width * 3 <= u32::MAX,
        ;
    }
    row_j * width * 3
}

/// Write `row`'s bytes into `image` at `row`'s offset; all other bytes keep
/// their value.
pub fn merge_row(image: &mut Vec<u8>, row: &RowData)
    requires
        row.row_index() + row.bytes().len() <= old(image)@.len(),
    ensures
        final(image)@ == spliced(old(image)@, *row),
{
    let _total = image.len();
    let start = row.get_index() as usize;
    let n = row.len();
    let mut k: usize = 0;
    while k < n
        invariant
            k <= n,
            n == row.bytes().len(),
            start == row.row_index(),
            start + n <= image@.len(),
            image@.len() <= usize::MAX,
            image@.len() == old(image)@.len(),
            forall|j: int| 0 <= j < k ==> image@[start + j] == row.bytes()[j],
            forall|j: int|
                0 <= j < image@.len() && !(start <= j < start + k) ==> image@[j] == old(image)@[j],
        decreases n - k,
    {
        let b = row.byte_at(k);
        image.set(start + k, b);
        k += 1;
    }
    assert(image@ =~= spliced(old(image)@, *row));
}

/// Merge every row of `rows` into `image`, in order.
pub fn merge_rows(image: &mut Vec<u8>, rows: &Vec<RowData>)
    requires
        rows_fit(old(image)@, rows@),
    ensures
        final(image)@ == merged(old(image)@, rows@),
{
    let n = rows.len();
    let mut j: usize = 0;
    while j < n
        invariant
            j <= n,
            n == rows@.len(),
            rows_fit(old(image)@, rows@),
            image@ == merged(old(image)@, rows@.subrange(0, j as int)),
        decreases n - j,
    {
        proof {
            lemma_merged_len(old(image)@, rows@.subrange(0, j as int));
            assert(rows@.contains(rows@[j as int]));
        }
        merge_row(image, &rows[j]);
        proof {
            let prefix = rows@.subrange(0, j as int + 1);
            assert(prefix.drop_last() =~= rows@.subrange(0, j as int));
            assert(prefix.last() == rows@[j as int]);
        }
        j += 1;
    }
    proof {
        assert(rows@.subrange(0, n as int) =~= rows@);
    }
}

/// Merging does not change the image's length.
pub proof fn lemma_merged_len(img: Seq<u8>, rows: Seq<RowData>)
    ensures
        merged(img, rows).len() == img.len(),
    decreases rows.len(),
{
    if rows.len() > 0 {
        lemma_merged_len(img, rows.drop_last());
    }
}

/// When the rows are pairwise disjoint, each byte of the merged image is
/// determined by the one row that covers it, or keeps its old value when no
/// row does — independently of the order of the rows.
pub proof fn lemma_merged_byte(img: Seq<u8>, rows: Seq<RowData>, k: int)
    requires
        rows_fit(img, rows),
        rows_disjoint(rows),
        0 <= k < img.len(),
    ensures
        forall|r: RowData|
            rows.contains(r) && covers(r, k) ==> merged(img, rows)[k] == r.bytes()[k
                - r.row_index()],
        (forall|r: RowData| rows.contains(r) ==> !covers(r, k)) ==> merged(img, rows)[k] == img[k],
    decreases rows.len(),
{
    lemma_merged_len(img, rows);
    if rows.len() == 0 {
        assert(forall|r: RowData| !rows.contains(r));
    } else {
        let dl = rows.drop_last();
        let lst = rows.last();
        assert(rows.contains(lst)) by {
            assert(rows[rows.len() - 1] == lst);
        }
        assert forall|r: RowData| #[trigger] dl.contains(r) implies rows.contains(r) by {
            let i = choose|i: int| 0 <= i < dl.len() && dl[i] == r;
            assert(rows[i] == r);
        }
        lemma_merged_byte(img, dl, k);
        lemma_merged_len(img, dl);
        let m = merged(img, dl);
        assert(merged(img, rows) == spliced(m, lst));
        if covers(lst, k) {
            assert(merged(img, rows)[k] == lst.bytes()[k - lst.row_index()]);
            assert forall|r: RowData|
                rows.contains(r) && covers(r, k) implies merged(img, rows)[k] == r.bytes()[k
                - r.row_index()] by {
                if r != lst {
                    assert(r.row_index() + r.bytes().len() <= lst.row_index() || lst.row_index()
                        + lst.bytes().len() <= r.row_index());
                    assert(false);
                }
            }
        } else {
            assert(merged(img, rows)[k] == m[k]);
            assert forall|r: RowData|
                rows.contains(r) && covers(r, k) implies merged(img, rows)[k] == r.bytes()[k
                - r.row_index()] by {
                let i = choose|i: int| 0 <= i < rows.len() && rows[i] == r;
                assert(i < rows.len() - 1) by {
                    if i == rows.len() - 1 {
                        assert(r == lst);
                        assert(false);
                    }
                }
                assert(dl[i] == r);
                assert(dl.contains(r));
            }
            if forall|r: RowData| rows.contains(r) ==> !covers(r, k) {
                assert(forall|r: RowData| dl.contains(r) ==> !covers(r, k));
                assert(m[k] == img[k]);
            }
        }
    }
}

/// The assembled image does not depend on the order in which the rows are
/// merged: two row sequences holding the same rows — as after any
/// interleaving of the per-row workers — merge to the same image, provided
/// the rows' ranges are pairwise disjoint.
pub proof fn lemma_merge_order_irrelevant(img: Seq<u8>, rows1: Seq<RowData>, rows2: Seq<RowData>)
    requires
        rows_fit(img, rows1),
        rows_disjoint(rows1),
        rows1.to_multiset() == rows2.to_multiset(),
    ensures
        merged(img, rows1) == merged(img, rows2),
{
    rows1.to_multiset_ensures();
    rows2.to_multiset_ensures();
    assert forall|r: RowData| rows1.contains(r) <==> rows2.contains(r) by {
        assert(rows1.contains(r) <==> rows1.to_multiset().count(r) > 0);
        assert(rows2.contains(r) <==> rows2.to_multiset().count(r) > 0);
        assert(rows1.to_multiset().count(r) == rows2.to_multiset().count(r));
    }
    assert(rows_fit(img, rows2));
    assert(rows_disjoint(rows2));
    lemma_merged_len(img, rows1);
    lemma_merged_len(img, rows2);
    assert forall|k: int|
        0 <= k < img.len() implies merged(img, rows1)[k] == merged(img, rows2)[k] by {
        lemma_merged_byte(img, rows1, k);
        lemma_merged_byte(img, rows2, k);
        if exists|r: RowData| #[trigger] rows1.contains(r) && covers(r, k) {
            let r = choose|r: RowData| #[trigger] rows1.contains(r) && covers(r, k);
            assert(rows2.contains(r));
            assert(merged(img, rows1)[k] == r.bytes()[k - r.row_index()]);
            assert(merged(img, rows2)[k] == r.bytes()[k - r.row_index()]);
        } else {
            assert(forall|r: RowData| rows1.contains(r) ==> !covers(r, k));
            assert(forall|r: RowData| rows2.contains(r) ==> !covers(r, k));
        }
    }
    assert(merged(img, rows1) =~= merged(img, rows2));
}

/// Rows laid out by `row_offset` — row `j` at byte `j * width * 3`, each
/// holding `3 * width` bytes — occupy pairwise disjoint ranges for distinct
/// row numbers.
pub proof fn lemma_row_ranges_disjoint(r1: RowData, r2: RowData, width: int, j1: int, j2: int)
    requires
        0 <= width,
        0 <= j1,
        0 <= j2,
        j1 != j2,
        r1.row_index() == j1 * width * 3,
        r2.row_index() == j2 * width * 3,
        r1.bytes().len() == 3 * width,
        r2.bytes().len() == 3 * width,
    ensures
        r1.row_index() + r1.bytes().len() <= r2.row_index() || r2.row_index() + r2.bytes().len()
            <= r1.row_index(),
{
    assert(j1 * width * 3 + 3 * width <= j2 * width * 3 || j2 * width * 3 + 3 * width <= j1 * width
        * 3) by (nonlinear_arith)
        requires
            0 <= width,
            0 <= j1,
            0 <= j2,
            j1 != j2,
    ;
}

} // verus!
