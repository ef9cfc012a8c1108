//! A plain bitmap, drawn as a sprite or as an effect.

use crate::blend::{blend_effect_pixel, blend_sprite_pixel, effect_blend, sprite_blend};
use crate::drawable::{Effect, Sprite};
use crate::pixel_formats::RgbaNoPadding;
use crate::PixelFormat;
use vstd::arithmetic::div_mod::{lemma_div_denominator, lemma_fundamental_div_mod};
use std::marker::PhantomData;
use std::ops::Range;
use vstd::prelude::*;

verus! {

/// A bitmap as the contracts see it: its width in pixels and its bytes,
/// row after row.
pub struct BitmapView {
    /// Width in pixels.
    pub width: nat,
    /// The bytes, row after row.
    pub bytes: Seq<u8>,
}

/// A simple bitmap sprite: rows of `width` pixels, one after the other.
pub struct Bitmap<'a, P: PixelFormat> {
    width: usize,
    data: &'a [u8],
    _phantom: PhantomData<P>,
}

impl<'a, P: PixelFormat> View for Bitmap<'a, P> {
    type V = BitmapView;

    closed spec fn view(&self) -> BitmapView {
        BitmapView { width: self.width as nat, bytes: self.data@ }
    }
}

/// Whether `width` and `bytes` make a bitmap of whole 8-bit RGBA rows.
pub open spec fn bitmap_ok(width: nat, bytes: Seq<u8>) -> bool {
    &&& 0 < width
    &&& width * 4 <= usize::MAX
    &&& bytes.len() <= usize::MAX
    &&& bytes.len() % (width * 4) == 0
}

/// The number of rows of a bitmap.
pub open spec fn bitmap_height(v: BitmapView) -> nat {
    v.bytes.len() / 4 / v.width
}

/// The bytes of the pixels `segment` of row `line`.
pub open spec fn bitmap_row_part(v: BitmapView, line: int, segment: Range<isize>) -> Seq<u8> {
    v.bytes.subrange((line * v.width + segment.start) * 4, (line * v.width + segment.end) * 4)
}

impl<'a> Bitmap<'a, RgbaNoPadding<8>> {
    /// Creates a bitmap of `width` pixels per row over `data`.
    ///
    /// `data` must hold a whole number of rows.
    pub fn new(width: usize, data: &'a [u8]) -> (r: Self)
        requires
            bitmap_ok(width as nat, data@),
        ensures
            r@ == (BitmapView { width: width as nat, bytes: data@ }),
    {
        Bitmap { width, data, _phantom: PhantomData }
    }

    proof fn lemma_row_in_bounds(&self, line: int, segment: Range<isize>)
        requires
            bitmap_ok(self@.width, self@.bytes),
            0 <= line < bitmap_height(self@),
            0 <= segment.start <= segment.end <= self@.width,
        ensures
            0 <= (line * self@.width + segment.start) * 4,
            (line * self@.width + segment.end) * 4 <= self@.bytes.len(),
            bitmap_height(self@) <= isize::MAX,
    {
        let w = self@.width as int;
        let n = self@.bytes.len() as int;
        let h = bitmap_height(self@) as int;
        lemma_div_denominator(n, 4, w);
        lemma_fundamental_div_mod(n, 4 * w);
        assert(n == h * w * 4) by (nonlinear_arith)
            requires n == (4 * w) * (n / (4 * w)) + n % (4 * w), n % (4 * w) == 0, h == n / (4 * w);
        assert(h <= n) by (nonlinear_arith)
            requires n == h * w * 4, w > 0, h >= 0;
        assert((line + 1) * w <= h * w) by (nonlinear_arith)
            requires line + 1 <= h, w > 0;
        assert(line * w + segment.end <= (line + 1) * w) by (nonlinear_arith)
            requires segment.end <= w;
        assert(0 <= (line * w + segment.start) * 4) by (nonlinear_arith)
            requires line >= 0, w > 0, segment.start >= 0;
    }

    /// Reads the pixel at index `pixel`, counting rows one after the other.
    fn pixel(&self, pixel: usize) -> (r: [u8; 4])
        requires
            (pixel + 1) * 4 <= self@.bytes.len(),
            self@.bytes.len() <= usize::MAX,
        ensures
            forall|c: int| 0 <= c < 4 ==> #[trigger] r@[c] == self@.bytes[pixel * 4 + c],
    {
        let k = pixel * 4;
        [self.data[k], self.data[k + 1], self.data[k + 2], self.data[k + 3]]
    }

    fn lines_of(&self) -> (r: Range<isize>)
        requires
            bitmap_ok(self@.width, self@.bytes),
        ensures
            r == (Range { start: 0isize, end: bitmap_height(self@) as isize }),
    {
        proof {
            assert(bitmap_height(self@) <= self@.bytes.len());
        }
        0..((self.data.len() / 4 / self.width) as isize)
    }

    fn columns_of(&self) -> (r: Range<isize>)
        requires
            bitmap_ok(self@.width, self@.bytes),
        ensures
            r == (Range { start: 0isize, end: self@.width as isize }),
            r.start <= r.end,
    {
        0..(self.width as isize)
    }
}

impl<'a> Sprite<RgbaNoPadding<8>> for Bitmap<'a, RgbaNoPadding<8>> {
    open spec fn well_formed(&self) -> bool {
        bitmap_ok(self@.width, self@.bytes)
    }

    open spec fn spec_lines(&self, all_lines_range: Option<Range<isize>>) -> Range<isize> {
        Range { start: 0isize, end: bitmap_height(self@) as isize }
    }

    open spec fn spec_line_segment(
        &self,
        all_lines_range: Option<Range<isize>>,
        line: isize,
        line_span: Range<isize>,
    ) -> Range<isize> {
        Range { start: 0isize, end: self@.width as isize }
    }

    open spec fn spec_render(
        &self,
        all_lines_range: Option<Range<isize>>,
        line: isize,
        line_span: Range<isize>,
        segment: Range<isize>,
        offset_bits: usize,
        data: Seq<u8>,
    ) -> Seq<u8> {
        sprite_blend(data, bitmap_row_part(self@, line as int, segment))
    }

    fn lines(&self, all_lines_range: Option<Range<isize>>) -> (r: Range<isize>) {
        self.lines_of()
    }

    fn line_segment(
        &self,
        all_lines_range: Option<Range<isize>>,
        line: isize,
        line_span: Range<isize>,
    ) -> (r: Range<isize>) {
        self.columns_of()
    }

    fn render(
        &self,
        all_lines_range: Option<Range<isize>>,
        line: isize,
        line_span: Range<isize>,
        segment: Range<isize>,
        offset_bits: usize,
        data: &mut [u8],
    ) {
        proof {
            assert(data@.len() * 8 == (segment.end - segment.start) * 32);
        }
        proof {
            self.lemma_row_in_bounds(line as int, segment);
        }
        let ghost src = bitmap_row_part(self@, line as int, segment);
        let first = (line as usize) * self.width + (segment.start as usize);
        let count = (segment.end - segment.start) as usize;
        let mut j: usize = 0;
        while j < count
            invariant
                bitmap_ok(self@.width, self@.bytes),
                first == line * self@.width + segment.start,
                count == segment.end - segment.start,
                (first + count) * 4 <= self@.bytes.len(),
                src == self@.bytes.subrange(first * 4, (first + count) * 4),
                j <= count,
                data@.len() == old(data)@.len(),
                data@.len() == count * 4,
                forall|i: int|
                    0 <= i < data@.len() ==> #[trigger] data@[i] == if i < j * 4 {
                        sprite_blend(old(data)@, src)[i]
                    } else {
                        old(data)@[i]
                    },
            decreases count - j,
        {
            let px = self.pixel(first + j);
            blend_sprite_pixel(data, j * 4, px);
            assert forall|i: int| j * 4 <= i < j * 4 + 4 implies src[i] == #[trigger] px@[i - j * 4]
                by {}
            j += 1;
        }
        assert(data@ =~= sprite_blend(old(data)@, src));
    }
}

impl<'a> Effect<RgbaNoPadding<8>> for Bitmap<'a, RgbaNoPadding<8>> {
    open spec fn well_formed(&self) -> bool {
        bitmap_ok(self@.width, self@.bytes)
    }

    open spec fn spec_lines(&self, all_lines_range: Option<Range<isize>>) -> Range<isize> {
        Range { start: 0isize, end: bitmap_height(self@) as isize }
    }

    open spec fn spec_line_segment(
        &self,
        all_lines_range: Option<Range<isize>>,
        line: isize,
        line_span: Range<isize>,
    ) -> Range<isize> {
        Range { start: 0isize, end: self@.width as isize }
    }

    open spec fn spec_render(
        &self,
        all_lines_range: Option<Range<isize>>,
        line: isize,
        line_span: Range<isize>,
        segment: Range<isize>,
        offset_bits: usize,
        data: Seq<u8>,
    ) -> Seq<u8> {
        effect_blend(data, bitmap_row_part(self@, line as int, segment))
    }

    fn lines(&self, all_lines_range: Option<Range<isize>>) -> (r: Range<isize>) {
        self.lines_of()
    }

    fn line_segment(
        &self,
        all_lines_range: Option<Range<isize>>,
        line: isize,
        line_span: Range<isize>,
    ) -> (r: Range<isize>) {
        self.columns_of()
    }

    fn render(
        &self,
        all_lines_range: Option<Range<isize>>,
        line: isize,
        line_span: Range<isize>,
        segment: Range<isize>,
        offset_bits: usize,
        data: &mut [u8],
    ) {
        proof {
            assert(data@.len() * 8 == (segment.end - segment.start) * 32);
        }
        proof {
            self.lemma_row_in_bounds(line as int, segment);
        }
        let ghost src = bitmap_row_part(self@, line as int, segment);
        let first = (line as usize) * self.width + (segment.start as usize);
        let count = (segment.end - segment.start) as usize;
        let mut j: usize = 0;
        while j < count
            invariant
                bitmap_ok(self@.width, self@.bytes),
                first == line * self@.width + segment.start,
                count == segment.end - segment.start,
                (first + count) * 4 <= self@.bytes.len(),
                src == self@.bytes.subrange(first * 4, (first + count) * 4),
                j <= count,
                data@.len() == old(data)@.len(),
                data@.len() == count * 4,
                forall|i: int|
                    0 <= i < data@.len() ==> #[trigger] data@[i] == if i < j * 4 {
                        effect_blend(old(data)@, src)[i]
                    } else {
                        old(data)@[i]
                    },
            decreases count - j,
        {
            let px = self.pixel(first + j);
            blend_effect_pixel(data, j * 4, px);
            assert forall|i: int| j * 4 <= i < j * 4 + 4 implies src[i] == #[trigger] px@[i - j * 4]
                by {}
            j += 1;
        }
        assert(data@ =~= effect_blend(old(data)@, src));
    }
}

} // verus!
