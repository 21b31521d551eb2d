//! Transformations of images held as `(channels, height, width)` arrays.

use vstd::prelude::*;
use crate::kernels::lemma_len_fits;
use crate::scalar::{RandomSource, Scalar};
use crate::shape::{
    flat3, index3, lemma_flat2_cell, lemma_flat3_bound, lemma_flat3_injective, lemma_flat4_leading,
    lemma_product4_positive, Cursor4,
};

verus! {

/// A transformation of an image of extents `(channels, height, width)`,
/// which keeps the number of its elements.
pub trait DataAugmentation<T> {
    fn apply<R: RandomSource<T>>(
        &self,
        data: &Vec<T>,
        channels: usize,
        height: usize,
        width: usize,
        rng: &mut R,
    ) -> (r: Vec<T>)
        requires
            data@.len() == channels * height * width,
        ensures
            r@.len() == data@.len(),
    ;
}

/// Mirrors an image left to right with probability `p`.
pub struct RandomHorizontalFlip<T> {
    pub p: T,
}

/// The transformations of images there are.
pub enum Augmentation<T> {
    RandomHorizontalFlip(RandomHorizontalFlip<T>),
}

/// Transformations applied one after the other.
pub struct Compose<T> {
    pub transformations: Vec<Augmentation<T>>,
}

/// Whether `out` is the image `data` of extents
/// `(channels, height, width)` mirrored left to right.
pub open spec fn mirrored<T>(data: Seq<T>, out: Seq<T>, channels: int, height: int, width: int) -> bool {
    &&& out.len() == data.len()
    &&& forall|c: int, h: int, w: int|
        0 <= c < channels && 0 <= h < height && 0 <= w < width ==> #[trigger] out[flat3(
            c,
            h,
            w,
            height,
            width,
        )] == data[flat3(c, h, width - 1 - w, height, width)]
}

/// Mirrors an image of extents `(channels, height, width)` left to right.
pub fn flip<T: Copy>(data: &Vec<T>, channels: usize, height: usize, width: usize) -> (r: Vec<T>)
    requires
        data@.len() == channels * height * width,
    ensures
        mirrored(data@, r@, channels as int, height as int, width as int),
{
    proof {
        lemma_len_fits(data);
        assert(channels * height * width == channels * height * width * 1) by (nonlinear_arith);
    }
    let total = data.len();
    proof {
        if total > 0 {
            lemma_product4_positive(channels as int, height as int, width as int, 1);
        }
    }
    let mut out: Vec<T> = Vec::new();
    let mut cur = Cursor4::start();
    while out.len() < total
        invariant
            data@.len() == channels * height * width,
            data@.len() <= usize::MAX,
            total == channels * height * width * 1,
            total == data@.len(),
            out@.len() <= total,
            total > 0 ==> cur.inside(height as int, width as int, 1),
            out@.len() == cur.position(height as int, width as int, 1),
            forall|c: int, h: int, w: int|
                0 <= c && 0 <= h < height && 0 <= w < width && flat3(
                    c,
                    h,
                    w,
                    height as int,
                    width as int,
                ) < out@.len() ==> #[trigger] out@[flat3(c, h, w, height as int, width as int)]
                    == data@[flat3(c, h, width - 1 - w, height as int, width as int)],
        decreases total - out@.len(),
    {
        proof {
            lemma_flat4_leading(
                cur.i as int,
                cur.j as int,
                cur.k as int,
                cur.l as int,
                channels as int,
                height as int,
                width as int,
                1,
            );
            lemma_flat3_bound(
                cur.i as int,
                cur.j as int,
                width - 1 - cur.k,
                channels as int,
                height as int,
                width as int,
            );
            lemma_position(cur.i as int, cur.j as int, cur.k as int, height as int, width as int);
        }
        let source = index3(cur.i, cur.j, width - 1 - cur.k, height, width);
        let ghost before = out@;
        out.push(data[source]);
        assert forall|c: int, h: int, w: int|
            0 <= c && 0 <= h < height && 0 <= w < width && flat3(
                c,
                h,
                w,
                height as int,
                width as int,
            ) < out@.len() implies #[trigger] out@[flat3(c, h, w, height as int, width as int)]
            == data@[flat3(c, h, width - 1 - w, height as int, width as int)] by {
            let at = flat3(c, h, w, height as int, width as int);
            if at < before.len() {
                assert(out@[at] == before[at]);
            } else {
                lemma_flat3_injective(
                    c,
                    h,
                    w,
                    cur.i as int,
                    cur.j as int,
                    cur.k as int,
                    height as int,
                    width as int,
                );
            }
        }
        cur.advance(height, width, 1);
    }
    assert forall|c: int, h: int, w: int|
        0 <= c < channels && 0 <= h < height && 0 <= w < width implies flat3(
        c,
        h,
        w,
        height as int,
        width as int,
    ) < out@.len() by {
        lemma_flat3_bound(c, h, w, channels as int, height as int, width as int);
    }
    out
}

proof fn lemma_position(c: int, h: int, w: int, height: int, width: int)
    by (nonlinear_arith)
    ensures
        crate::shape::flat4(c, h, w, 0, height, width, 1) == flat3(c, h, w, height, width),
{
}

/// An image mirrored twice is the image itself.
pub proof fn lemma_mirrored_twice<T>(
    data: Seq<T>,
    once: Seq<T>,
    twice: Seq<T>,
    channels: int,
    height: int,
    width: int,
)
    requires
        0 <= channels,
        0 <= height,
        0 <= width,
        data.len() == channels * height * width,
        mirrored(data, once, channels, height, width),
        mirrored(once, twice, channels, height, width),
    ensures
        twice == data,
{
    assert forall|at: int| 0 <= at < data.len() implies twice[at] == data[at] by {
        assert(width > 0 && channels * height > 0) by (nonlinear_arith)
            requires
                0 <= channels,
                0 <= height,
                0 <= width,
                0 < channels * height * width,
        ;
        assert(height > 0) by (nonlinear_arith)
            requires
                0 <= channels,
                0 <= height,
                0 < channels * height,
        ;
        lemma_flat2_cell(at, channels * height, width);
        let w = at % width;
        let row = at / width;
        lemma_flat2_cell(row, channels, height);
        let h = row % height;
        let c = row / height;
        assert(at == flat3(c, h, w, height, width));
        assert(twice[flat3(c, h, w, height, width)] == once[flat3(
            c,
            h,
            width - 1 - w,
            height,
            width,
        )]);
        assert(once[flat3(c, h, width - 1 - w, height, width)] == data[flat3(
            c,
            h,
            width - 1 - (width - 1 - w),
            height,
            width,
        )]);
    }
    assert(twice =~= data);
}

impl<T: Scalar> RandomHorizontalFlip<T> {
    pub fn new(p: T) -> (r: Self)
        ensures
            r.p == p,
    {
        RandomHorizontalFlip { p }
    }

    /// Draws once from `rng` and returns the image either as it is or
    /// mirrored left to right.
    pub fn apply<R: RandomSource<T>>(
        &self,
        data: &Vec<T>,
        channels: usize,
        height: usize,
        width: usize,
        rng: &mut R,
    ) -> (r: Vec<T>)
        requires
            data@.len() == channels * height * width,
        ensures
            r@ == data@ || mirrored(data@, r@, channels as int, height as int, width as int),
    {
        if rng.keep(self.p) {
            crate::kernels::copied(data)
        } else {
            flip(data, channels, height, width)
        }
    }
}

impl<T: Scalar> Compose<T> {
    pub fn new(transformations: Vec<Augmentation<T>>) -> (r: Self)
        ensures
            r.transformations == transformations,
    {
        Compose { transformations }
    }

    /// Applies the transformations one after the other, each drawing once
    /// from `rng`. Whatever is drawn, the result is the image as it is or
    /// mirrored left to right; with no transformation it is the image.
    pub fn apply<R: RandomSource<T>>(
        &self,
        data: &Vec<T>,
        channels: usize,
        height: usize,
        width: usize,
        rng: &mut R,
    ) -> (r: Vec<T>)
        requires
            data@.len() == channels * height * width,
        ensures
            r@ == data@ || mirrored(data@, r@, channels as int, height as int, width as int),
            self.transformations@.len() == 0 ==> r@ == data@,
    {
        let mut result = crate::kernels::copied(data);
        let n = self.transformations.len();
        let mut i: usize = 0;
        while i < n
            invariant
                i <= n,
                n == self.transformations@.len(),
                result@.len() == channels * height * width,
                result@.len() == data@.len(),
                n == 0 ==> result@ == data@,
                result@ == data@ || mirrored(
                    data@,
                    result@,
                    channels as int,
                    height as int,
                    width as int,
                ),
            decreases n - i,
        {
            let ghost before = result@;
            let next = match &self.transformations[i] {
                Augmentation::RandomHorizontalFlip(f) => f.apply(
                    &result,
                    channels,
                    height,
                    width,
                    rng,
                ),
            };
            result = next;
            proof {
                if before != data@ && result@ != before {
                    lemma_mirrored_twice(
                        data@,
                        before,
                        result@,
                        channels as int,
                        height as int,
                        width as int,
                    );
                }
            }
            i = i + 1;
        }
        result
    }
}

impl<T: Scalar> DataAugmentation<T> for RandomHorizontalFlip<T> {
    fn apply<R: RandomSource<T>>(
        &self,
        data: &Vec<T>,
        channels: usize,
        height: usize,
        width: usize,
        rng: &mut R,
    ) -> (r: Vec<T>) {
        RandomHorizontalFlip::apply(self, data, channels, height, width, rng)
    }
}

impl<T: Scalar> DataAugmentation<T> for Compose<T> {
    fn apply<R: RandomSource<T>>(
        &self,
        data: &Vec<T>,
        channels: usize,
        height: usize,
        width: usize,
        rng: &mut R,
    ) -> (r: Vec<T>) {
        Compose::apply(self, data, channels, height, width, rng)
    }
}

} // verus!
