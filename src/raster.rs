//! The order in which pixels are produced and how samples are placed in them.
use vstd::prelude::*;

verus! {

/// The pixel at position `k` of the scan: rows from the top (`j = height - 1`)
/// down to `j = 0`, and within a row columns `i` from left to right.
pub open spec fn scan_pixel(k: int, width: int, height: int) -> (int, int) {
    (k % width, height - 1 - k / width)
}

/// The `(i, j)` coordinates of every pixel of a `width` by `height` image,
/// in the order in which colours are handed to the image sink.
pub fn scan_order(width: u32, height: u32) -> (r: Vec<(u32, u32)>)
    requires
        width as int * height as int <= usize::MAX,
    ensures
        r@.len() == width as int * height as int,
        forall|k: int| 0 <= k < r@.len() ==> {
            let (i, j) = scan_pixel(k, width as int, height as int);
            &&& (#[trigger] r@[k]).0 as int == i
            &&& r@[k].1 as int == j
        },
{
    let mut r: Vec<(u32, u32)> = Vec::new();
    let mut row: u32 = 0;
    while row < height
        invariant
            row <= height,
            width as int * height as int <= usize::MAX,
            r@.len() == width as int * row as int,
            forall|k: int| 0 <= k < r@.len() ==> {
                let (i, j) = scan_pixel(k, width as int, height as int);
                &&& (#[trigger] r@[k]).0 as int == i
                &&& r@[k].1 as int == j
            },
        decreases height - row,
    {
        let j = height - 1 - row;
        let mut i: u32 = 0;
        while i < width
            invariant
                row < height,
                j == height - 1 - row,
                i <= width,
                width as int * height as int <= usize::MAX,
                r@.len() == width as int * row as int + i,
                forall|k: int| 0 <= k < r@.len() ==> {
                    let (i, j) = scan_pixel(k, width as int, height as int);
                    &&& (#[trigger] r@[k]).0 as int == i
                    &&& r@[k].1 as int == j
                },
            decreases width - i,
        {
            proof {
                let k = width as int * row as int + i;
                assert(k % width as int == i as int && k / width as int == row as int) by (nonlinear_arith)
                    requires
                        k == width as int * row as int + i,
                        0 <= i < width,
                        0 <= row,
                ;
                assert(width as int * row as int + i < width as int * height as int) by (nonlinear_arith)
                    requires
                        0 <= i < width,
                        0 <= row < height,
                ;
            }
            r.push((i, j));
            i = i + 1;
        }
        proof {
            assert(width as int * (row as int + 1) == width as int * row as int + width) by (nonlinear_arith);
        }
        row = row + 1;
    }
    r
}

/// Whether the samples of a pixel are jittered by random offsets: a single
/// sample is taken unjittered, so that one-sample renders are reproducible.
pub fn jittered(samples_per_pixel: u32) -> (r: bool)
    ensures
        r == (samples_per_pixel != 1),
{
    samples_per_pixel != 1
}

} // verus!
