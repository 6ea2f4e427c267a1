//! Binary portable-pixmap encoding: a textual header naming the image
//! dimensions and the maximum channel value, followed by the raw RGB bytes.

use vstd::prelude::*;

verus! {

/// The decimal digits of `n`, most significant first, as ASCII bytes.
pub open spec fn dec_digits(n: nat) -> Seq<u8>
    decreases n,
{
    if n < 10 {
        seq![(48 + n) as u8]
    } else {
        dec_digits(n / 10).push((48 + n % 10) as u8)
    }
}

/// The header `P6 <width> <height> 255\n` as bytes.
pub open spec fn ppm_header(width: nat, height: nat) -> Seq<u8> {
    seq![80u8, 54u8, 32u8] + dec_digits(width) + seq![32u8] + dec_digits(height) + seq![
        32u8,
        50u8,
        53u8,
        53u8,
        10u8,
    ]
}

/// Append the decimal digits of `n` to `out`.
fn push_decimal(n: u32, out: &mut Vec<u8>)
    ensures
        final(out)@ == old(out)@ + dec_digits(n as nat),
    decreases n,
{
    if n < 10 {
        out.push(48 + n as u8);
        assert(out@ =~= old(out)@ + dec_digits(n as nat));
    } else {
        push_decimal(n / 10, out);
        out.push(48 + (n % 10) as u8);
        assert(out@ =~= old(out)@ + dec_digits(n as nat));
    }
}

#[derive(Clone)]
pub struct PPM {
    pub height: u32,
    pub width: u32,
    pub data: Vec<u8>,
}

impl PPM {
    /// The complete encoded file: header, then the pixel bytes row-major,
    /// top row first.
    pub fn encode(&self) -> (r: Vec<u8>)
        ensures
            r@ == ppm_header(self.width as nat, self.height as nat) + self.data@,
    {
        let ghost header = ppm_header(self.width as nat, self.height as nat);
        let mut out: Vec<u8> = Vec::new();
        out.push(80);
        out.push(54);
        out.push(32);
        push_decimal(self.width, &mut out);
        out.push(32);
        push_decimal(self.height, &mut out);
        out.push(32);
        out.push(50);
        out.push(53);
        out.push(53);
        out.push(10);
        assert(out@ =~= header);
        let n = self.data.len();
        let mut k: usize = 0;
        while k < n
            invariant
                k <= n,
                n == self.data@.len(),
                out@ == header + self.data@.subrange(0, k as int),
            decreases n - k,
        {
            out.push(self.data[k]);
            assert(out@ =~= header + self.data@.subrange(0, k as int + 1));
            k += 1;
        }
        assert(out@ =~= header + self.data@);
        out
    }
}

} // verus!
