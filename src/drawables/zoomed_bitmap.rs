//! A bitmap enlarged by whole factors, drawn as a sprite or as an effect.

use crate::blend::{blend_effect_pixel, blend_sprite_pixel, effect_blend, sprite_blend};
use crate::drawable::{Effect, Sprite};
use crate::drawables::bitmap::bitmap_ok;
use crate::pixel_formats::RgbaNoPadding;
use crate::PixelFormat;
use std::marker::PhantomData;
use std::ops::Range;
use vstd::arithmetic::div_mod::{lemma_div_denominator, lemma_fundamental_div_mod};
use vstd::prelude::*;

verus! {

/// A zoomed bitmap as the contracts see it.
pub struct ZoomedBitmapView {
    /// Width of the source bitmap, in pixels.
    pub width: nat,
    /// The source bytes, row after row.
    pub bytes: Seq<u8>,
    /// How many times each source pixel repeats across.
    pub horizontal_zoom_factor: nat,
    /// How many times each source row repeats down.
    pub vertical_zoom_factor: nat,
}

/// An integer-zoomed bitmap sprite: each source pixel covers a block of
/// `horizontal_zoom_factor` by `vertical_zoom_factor` pixels.
pub struct ZoomedBitmap<'a, P: PixelFormat> {
    width: usize,
    data: &'a [u8],
    horizontal_zoom_factor: usize,
    vertical_zoom_factor: usize,
    _phantom: PhantomData<P>,
}

impl<'a, P: PixelFormat> View for ZoomedBitmap<'a, P> {
    type V = ZoomedBitmapView;

    closed spec fn view(&self) -> ZoomedBitmapView {
        ZoomedBitmapView {
            width: self.width as nat,
            bytes: self.data@,
            horizontal_zoom_factor: self.horizontal_zoom_factor as nat,
            vertical_zoom_factor: self.vertical_zoom_factor as nat,
        }
    }
}

/// The number of rows of the source bitmap.
pub open spec fn source_height(v: ZoomedBitmapView) -> nat {
    v.bytes.len() / 4 / v.width
}

/// Whether `v` is a source of whole rows whose zoomed extent fits `isize`.
pub open spec fn zoomed_ok(v: ZoomedBitmapView) -> bool {
    &&& bitmap_ok(v.width, v.bytes)
    &&& source_height(v) * v.vertical_zoom_factor <= isize::MAX
    &&& v.width * v.horizontal_zoom_factor <= isize::MAX
}

/// The source bytes that the zoomed pixels `segment` of zoomed row `line`
/// show: zoomed row `line` repeats source row `line / vertical_zoom_factor`,
/// and zoomed column `c` repeats source column `c / horizontal_zoom_factor`.
pub open spec fn zoomed_row_part(v: ZoomedBitmapView, line: int, segment: Range<isize>) -> Seq<
    u8,
> {
    Seq::new(
        ((segment.end - segment.start) * 4) as nat,
        |i: int|
            v.bytes[((line / v.vertical_zoom_factor as int) * v.width + (segment.start + i / 4)
                / v.horizontal_zoom_factor as int) * 4 + i % 4],
    )
}

impl<'a> ZoomedBitmap<'a, RgbaNoPadding<8>> {
    /// Creates a zoomed bitmap of `width` source pixels per row over `data`.
    ///
    /// `data` must hold a whole number of rows.
    pub fn new(
        width: usize,
        data: &'a [u8],
        horizontal_zoom_factor: usize,
        vertical_zoom_factor: usize,
    ) -> (r: Self)
        requires
            zoomed_ok(
                ZoomedBitmapView {
                    width: width as nat,
                    bytes: data@,
                    horizontal_zoom_factor: horizontal_zoom_factor as nat,
                    vertical_zoom_factor: vertical_zoom_factor as nat,
                },
            ),
        ensures
            r@ == (ZoomedBitmapView {
                width: width as nat,
                bytes: data@,
                horizontal_zoom_factor: horizontal_zoom_factor as nat,
                vertical_zoom_factor: vertical_zoom_factor as nat,
            }),
    {
        ZoomedBitmap { width, data, horizontal_zoom_factor, vertical_zoom_factor, _phantom: PhantomData }
    }

    /// Where source pixel `(row, column)` starts in the bytes, and that all
    /// of it lies inside them.
    proof fn lemma_source_pixel(&self, row: int, column: int)
        requires
            zoomed_ok(self@),
            0 <= row < source_height(self@),
            0 <= column < self@.width,
        ensures
            0 <= (row * self@.width + column) * 4,
            (row * self@.width + column + 1) * 4 <= self@.bytes.len(),
    {
        let w = self@.width as int;
        let n = self@.bytes.len() as int;
        let h = source_height(self@) as int;
        lemma_div_denominator(n, 4, w);
        lemma_fundamental_div_mod(n, 4 * w);
        assert(n == h * w * 4) by (nonlinear_arith)
            requires n == (4 * w) * (n / (4 * w)) + n % (4 * w), n % (4 * w) == 0, h == n / (4 * w);
        assert((row + 1) * w <= h * w) by (nonlinear_arith)
            requires row + 1 <= h, w > 0;
        assert(0 <= row * w) by (nonlinear_arith)
            requires row >= 0, w > 0;
        assert(row * w + column + 1 <= (row + 1) * w) by (nonlinear_arith)
            requires column + 1 <= w;
    }

    fn lines_of(&self) -> (r: Range<isize>)
        requires
            zoomed_ok(self@),
        ensures
            r == (Range {
                start: 0isize,
                end: (source_height(self@) * self@.vertical_zoom_factor) as isize,
            }),
    {
        proof {
            assert(source_height(self@) <= self@.bytes.len());
        }
        0..((self.data.len() / 4 / self.width * self.vertical_zoom_factor) as isize)
    }

    fn columns_of(&self) -> (r: Range<isize>)
        requires
            zoomed_ok(self@),
        ensures
            r == (Range { start: 0isize, end: (self@.width * self@.horizontal_zoom_factor) as isize }),
            r.start <= r.end,
    {
        0..((self.width * self.horizontal_zoom_factor) as isize)
    }

    /// The source pixel shown at zoomed column `column` of zoomed row `line`.
    fn zoomed_pixel(&self, line: usize, column: usize) -> (r: [u8; 4])
        requires
            zoomed_ok(self@),
            line < source_height(self@) * self@.vertical_zoom_factor,
            column < self@.width * self@.horizontal_zoom_factor,
        ensures
            forall|c: int|
                0 <= c < 4 ==> #[trigger] r@[c] == self@.bytes[((line as int
                    / self@.vertical_zoom_factor as int) * self@.width + column as int
                    / self@.horizontal_zoom_factor as int) * 4 + c],
    {
        proof {
            let vz = self@.vertical_zoom_factor as int;
            let hz = self@.horizontal_zoom_factor as int;
            let h = source_height(self@) as int;
            let w = self@.width as int;
            let l = line as int;
            let k = column as int;
            assert(vz > 0) by (nonlinear_arith)
                requires l < h * vz, l >= 0, h >= 0, vz >= 0;
            assert(hz > 0) by (nonlinear_arith)
                requires k < w * hz, k >= 0, w >= 0, hz >= 0;
        }
        let row = line / self.vertical_zoom_factor;
        let col = column / self.horizontal_zoom_factor;
        proof {
            let vz = self@.vertical_zoom_factor as int;
            let hz = self@.horizontal_zoom_factor as int;
            let h = source_height(self@) as int;
            let w = self@.width as int;
            let l = line as int;
            let k = column as int;
            assert(row < h) by (nonlinear_arith)
                requires row == l / vz, l < h * vz, vz > 0, l >= 0;
            assert(col < w) by (nonlinear_arith)
                requires col == k / hz, k < w * hz, hz > 0, k >= 0;
            self.lemma_source_pixel(row as int, col as int);
        }
        let k = (row * self.width + col) * 4;
        [self.data[k], self.data[k + 1], self.data[k + 2], self.data[k + 3]]
    }
}

impl<'a> Sprite<RgbaNoPadding<8>> for ZoomedBitmap<'a, RgbaNoPadding<8>> {
    open spec fn well_formed(&self) -> bool {
        zoomed_ok(self@)
    }

    open spec fn spec_lines(&self, all_lines_range: Option<Range<isize>>) -> Range<isize> {
        Range { start: 0isize, end: (source_height(self@) * self@.vertical_zoom_factor) as isize }
    }

    open spec fn spec_line_segment(
        &self,
        all_lines_range: Option<Range<isize>>,
        line: isize,
        line_span: Range<isize>,
    ) -> Range<isize> {
        Range { start: 0isize, end: (self@.width * self@.horizontal_zoom_factor) as isize }
    }

    open spec fn spec_render(
        &self,
        all_lines_range: Option<Range<isize>>,
        line: isize,
        line_span: Range<isize>,
        segment: Range<isize>,
        offset_bits: usize,
        data: Seq<u8>,
    ) -> Seq<u8> {
        sprite_blend(data, zoomed_row_part(self@, line as int, segment))
    }

    fn lines(&self, all_lines_range: Option<Range<isize>>) -> (r: Range<isize>) {
        self.lines_of()
    }

    fn line_segment(
        &self,
        all_lines_range: Option<Range<isize>>,
        line: isize,
        line_span: Range<isize>,
    ) -> (r: Range<isize>) {
        self.columns_of()
    }

    fn render(
        &self,
        all_lines_range: Option<Range<isize>>,
        line: isize,
        line_span: Range<isize>,
        segment: Range<isize>,
        offset_bits: usize,
        data: &mut [u8],
    ) {
        proof {
            assert(data@.len() * 8 == (segment.end - segment.start) * 32);
        }
        let ghost src = zoomed_row_part(self@, line as int, segment);
        let start = segment.start as usize;
        let count = (segment.end - segment.start) as usize;
        assert(data@.len() == data.len());
        let mut j: usize = 0;
        while j < count
            invariant
                zoomed_ok(self@),
                src == zoomed_row_part(self@, line as int, segment),
                0 <= line < source_height(self@) * self@.vertical_zoom_factor,
                start == segment.start,
                count == segment.end - segment.start,
                segment.end <= self@.width * self@.horizontal_zoom_factor,
                0 <= segment.start,
                j <= count,
                count * 4 <= usize::MAX,
                data@.len() == old(data)@.len(),
                data@.len() == count * 4,
                forall|i: int|
                    0 <= i < data@.len() ==> #[trigger] data@[i] == if i < j * 4 {
                        sprite_blend(old(data)@, src)[i]
                    } else {
                        old(data)@[i]
                    },
            decreases count - j,
        {
            let px = self.zoomed_pixel(line as usize, start + j);
            blend_sprite_pixel(data, j * 4, px);
            assert forall|i: int| j * 4 <= i < j * 4 + 4 implies src[i] == #[trigger] px@[i - j
                * 4] by {
                assert(i / 4 == j);
                assert(i % 4 == i - j * 4);
            }
            j += 1;
        }
        assert(data@ =~= sprite_blend(old(data)@, src));
    }
}

impl<'a> Effect<RgbaNoPadding<8>> for ZoomedBitmap<'a, RgbaNoPadding<8>> {
    open spec fn well_formed(&self) -> bool {
        zoomed_ok(self@)
    }

    open spec fn spec_lines(&self, all_lines_range: Option<Range<isize>>) -> Range<isize> {
        Range { start: 0isize, end: (source_height(self@) * self@.vertical_zoom_factor) as isize }
    }

    open spec fn spec_line_segment(
        &self,
        all_lines_range: Option<Range<isize>>,
        line: isize,
        line_span: Range<isize>,
    ) -> Range<isize> {
        Range { start: 0isize, end: (self@.width * self@.horizontal_zoom_factor) as isize }
    }

    open spec fn spec_render(
        &self,
        all_lines_range: Option<Range<isize>>,
        line: isize,
        line_span: Range<isize>,
        segment: Range<isize>,
        offset_bits: usize,
        data: Seq<u8>,
    ) -> Seq<u8> {
        effect_blend(data, zoomed_row_part(self@, line as int, segment))
    }

    fn lines(&self, all_lines_range: Option<Range<isize>>) -> (r: Range<isize>) {
        self.lines_of()
    }

    fn line_segment(
        &self,
        all_lines_range: Option<Range<isize>>,
        line: isize,
        line_span: Range<isize>,
    ) -> (r: Range<isize>) {
        self.columns_of()
    }

    fn render(
        &self,
        all_lines_range: Option<Range<isize>>,
        line: isize,
        line_span: Range<isize>,
        segment: Range<isize>,
        offset_bits: usize,
        data: &mut [u8],
    ) {
        proof {
            assert(data@.len() * 8 == (segment.end - segment.start) * 32);
        }
        let ghost src = zoomed_row_part(self@, line as int, segment);
        let start = segment.start as usize;
        let count = (segment.end - segment.start) as usize;
        assert(data@.len() == data.len());
        let mut j: usize = 0;
        while j < count
            invariant
                zoomed_ok(self@),
                src == zoomed_row_part(self@, line as int, segment),
                0 <= line < source_height(self@) * self@.vertical_zoom_factor,
                start == segment.start,
                count == segment.end - segment.start,
                segment.end <= self@.width * self@.horizontal_zoom_factor,
                0 <= segment.start,
                j <= count,
                count * 4 <= usize::MAX,
                data@.len() == old(data)@.len(),
                data@.len() == count * 4,
                forall|i: int|
                    0 <= i < data@.len() ==> #[trigger] data@[i] == if i < j * 4 {
                        effect_blend(old(data)@, src)[i]
                    } else {
                        old(data)@[i]
                    },
            decreases count - j,
        {
            let px = self.zoomed_pixel(line as usize, start + j);
            blend_effect_pixel(data, j * 4, px);
            assert forall|i: int| j * 4 <= i < j * 4 + 4 implies src[i] == #[trigger] px@[i - j
                * 4] by {
                assert(i / 4 == j);
                assert(i % 4 == i - j * 4);
            }
            j += 1;
        }
        assert(data@ =~= effect_blend(old(data)@, src));
    }
}

} // verus!
