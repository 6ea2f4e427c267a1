//! One image row's worth of RGB bytes, filled pixel by pixel and carrying
//! the byte offset at which it belongs in the final image.

use vstd::prelude::*;

verus! {

pub struct RowData {
    pub index: u32,
    pub rbg_values: Vec<u8>,
    i: usize,
}

impl RowData {
    /// The byte offset of this row in the final image buffer.
    pub closed spec fn row_index(self) -> u32 {
        self.index
    }

    /// The row's RGB bytes.
    pub closed spec fn bytes(self) -> Seq<u8> {
        self.rbg_values@
    }

    /// How many bytes have been written so far.
    pub closed spec fn filled(self) -> nat {
        self.i as nat
    }

    pub open spec fn wf(self) -> bool {
        self.filled() <= self.bytes().len()
    }

    /// The byte offset of this row in the final image buffer.
    pub fn get_index(&self) -> (r: u32)
        ensures
            r == self.row_index(),
    {
        self.index
    }

    /// How many bytes the row holds.
    pub fn len(&self) -> (r: usize)
        ensures
            r == self.bytes().len(),
    {
        self.rbg_values.len()
    }

    /// How many bytes have been written so far.
    pub fn filled_len(&self) -> (r: usize)
        ensures
            r == self.filled(),
    {
        self.i
    }

    /// The byte at position `k` of the row.
    pub fn byte_at(&self, k: usize) -> (r: u8)
        requires
            k < self.bytes().len(),
        ensures
            r == self.bytes()[k as int],
    {
        self.rbg_values[k]
    }

    pub fn new(index: u32, width: usize) -> (r: RowData)
        requires
            width <= usize::MAX / 3,
        ensures
            r.row_index() == index,
            r.bytes().len() == 3 * width,
            forall|k: int| 0 <= k < r.bytes().len() ==> r.bytes()[k] == 255,
            r.filled() == 0,
            r.wf(),
    {
        let len = 3 * width;
        let mut rbg_values: Vec<u8> = Vec::new();
        let mut k: usize = 0;
        while k < len
            invariant
                k <= len,
                rbg_values@.len() == k,
                forall|j: int| 0 <= j < k ==> rbg_values@[j] == 255,
            decreases len - k,
        {
            rbg_values.push(255);
            k += 1;
        }
        RowData { index, rbg_values, i: 0 }
    }

    /// Append one pixel: three bytes at the next free 3-byte slot.
    pub fn push_rgb(&mut self, r: u8, g: u8, b: u8)
        requires
            old(self).wf(),
            old(self).filled() + 3 <= old(self).bytes().len(),
        ensures
            final(self).wf(),
            final(self).row_index() == old(self).row_index(),
            final(self).filled() == old(self).filled() + 3,
            final(self).bytes() == old(self).bytes()
                .update(old(self).filled() as int, r)
                .update(old(self).filled() as int + 1, g)
                .update(old(self).filled() as int + 2, b),
    {
        let _n = self.rbg_values.len();
        self.rbg_values.set(self.i, r);
        self.rbg_values.set(self.i + 1, g);
        self.rbg_values.set(self.i + 2, b);
        self.i += 3;
    }
}

} // verus!
