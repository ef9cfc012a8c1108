//! A region of one flat colour, whose shape is given by two functions.

use crate::blend::{alpha_index, blend_effect_pixel, blend_sprite_pixel, effect_blend, sprite_blend};
use crate::drawable::{Effect, Sprite};
use crate::pixel_formats::RgbaNoPadding;
use crate::PixelFormat;
use std::marker::PhantomData;
use std::ops::Range;
use vstd::prelude::*;

verus! {

/// Whether `f` can be called on any line hint and gives one answer for each.
pub open spec fn lines_fn_ok<L: Fn(Option<Range<isize>>) -> Range<isize>>(f: L) -> bool {
    &&& forall|h: Option<Range<isize>>| #[trigger] f.requires((h,))
    &&& forall|h: Option<Range<isize>>, a: Range<isize>, b: Range<isize>|
        #[trigger] f.ensures((h,), a) && #[trigger] f.ensures((h,), b) ==> a == b
}

/// Whether `f` can be called on any arguments, gives one answer for each,
/// and that answer is an interval with `start <= end`.
pub open spec fn segments_fn_ok<
    S: Fn(Option<Range<isize>>, isize, Range<isize>) -> Range<isize>,
>(f: S) -> bool {
    &&& forall|h: Option<Range<isize>>, l: isize, s: Range<isize>| #[trigger] f.requires((h, l, s))
    &&& forall|
        h: Option<Range<isize>>,
        l: isize,
        s: Range<isize>,
        a: Range<isize>,
        b: Range<isize>,
    | #[trigger] f.ensures((h, l, s), a) && #[trigger] f.ensures((h, l, s), b) ==> a == b
    &&& forall|h: Option<Range<isize>>, l: isize, s: Range<isize>, a: Range<isize>|
        #[trigger] f.ensures((h, l, s), a) ==> a.start <= a.end
}

/// The bytes of `len` bytes' worth of pixels of one colour.
pub open spec fn flat(color: [u8; 4], len: nat) -> Seq<u8> {
    Seq::new(len, |i: int| color@[i % 4])
}

/// A flat-coloured dynamically masked sprite: `lines` gives the lines it
/// covers, `segments` the columns it covers on each line, both from the
/// hints the compositor passes on.
pub struct ColorClip<
    P: PixelFormat,
    L: Fn(Option<Range<isize>>) -> Range<isize>,
    S: Fn(Option<Range<isize>>, isize, Range<isize>) -> Range<isize>,
    C,
> {
    lines: L,
    segments: S,
    color: C,
    _phantom: PhantomData<P>,
}

impl<
    P: PixelFormat,
    L: Fn(Option<Range<isize>>) -> Range<isize>,
    S: Fn(Option<Range<isize>>, isize, Range<isize>) -> Range<isize>,
    C,
> ColorClip<P, L, S, C> {
    /// The function that gives the lines covered.
    pub closed spec fn lines_fn(&self) -> L {
        self.lines
    }

    /// The function that gives the columns covered on a line.
    pub closed spec fn segments_fn(&self) -> S {
        self.segments
    }

    /// The colour.
    pub closed spec fn color_value(&self) -> C {
        self.color
    }

    /// Creates a new [`ColorClip`] instance.
    pub fn new(lines: L, segments: S, color: C) -> (r: Self)
        ensures
            r.lines_fn() == lines,
            r.segments_fn() == segments,
            r.color_value() == color,
    {
        ColorClip { lines, segments, color, _phantom: PhantomData }
    }
}

/// The lines `clip` covers for the hint `h`.
pub open spec fn clip_lines<
    P: PixelFormat,
    L: Fn(Option<Range<isize>>) -> Range<isize>,
    S: Fn(Option<Range<isize>>, isize, Range<isize>) -> Range<isize>,
>(clip: ColorClip<P, L, S, [u8; 4]>, h: Option<Range<isize>>) -> Range<isize> {
    choose|r: Range<isize>| clip.lines_fn().ensures((h,), r)
}

/// The columns `clip` covers on `line` for the hints `h` and `span`.
pub open spec fn clip_segment<
    P: PixelFormat,
    L: Fn(Option<Range<isize>>) -> Range<isize>,
    S: Fn(Option<Range<isize>>, isize, Range<isize>) -> Range<isize>,
>(
    clip: ColorClip<P, L, S, [u8; 4]>,
    h: Option<Range<isize>>,
    line: isize,
    span: Range<isize>,
) -> Range<isize> {
    choose|r: Range<isize>| clip.segments_fn().ensures((h, line, span), r)
}

impl<
    L: Fn(Option<Range<isize>>) -> Range<isize>,
    S: Fn(Option<Range<isize>>, isize, Range<isize>) -> Range<isize>,
> Sprite<RgbaNoPadding<8>> for ColorClip<RgbaNoPadding<8>, L, S, [u8; 4]> {
    open spec fn well_formed(&self) -> bool {
        lines_fn_ok(self.lines_fn()) && segments_fn_ok(self.segments_fn())
    }

    open spec fn spec_lines(&self, all_lines_range: Option<Range<isize>>) -> Range<isize> {
        clip_lines(*self, all_lines_range)
    }

    open spec fn spec_line_segment(
        &self,
        all_lines_range: Option<Range<isize>>,
        line: isize,
        line_span: Range<isize>,
    ) -> Range<isize> {
        clip_segment(*self, all_lines_range, line, line_span)
    }

    open spec fn spec_render(
        &self,
        all_lines_range: Option<Range<isize>>,
        line: isize,
        line_span: Range<isize>,
        segment: Range<isize>,
        offset_bits: usize,
        data: Seq<u8>,
    ) -> Seq<u8> {
        sprite_blend(data, flat(self.color_value(), data.len()))
    }

    fn lines(&self, all_lines_range: Option<Range<isize>>) -> (r: Range<isize>) {
        let ghost h = all_lines_range;
        let r = (self.lines)(all_lines_range);
        proof {
            let c = clip_lines(*self, h);
            assert(self.lines_fn().ensures((h,), c));
        }
        r
    }

    fn line_segment(
        &self,
        all_lines_range: Option<Range<isize>>,
        line: isize,
        line_span: Range<isize>,
    ) -> (r: Range<isize>) {
        let ghost h = all_lines_range;
        let ghost span = line_span;
        let r = (self.segments)(all_lines_range, line, line_span);
        proof {
            let c = clip_segment(*self, h, line, span);
            assert(self.segments_fn().ensures((h, line, span), c));
        }
        r
    }

    fn render(
        &self,
        all_lines_range: Option<Range<isize>>,
        line: isize,
        line_span: Range<isize>,
        segment: Range<isize>,
        offset_bits: usize,
        data: &mut [u8],
    ) {
        proof {
            assert(data@.len() * 8 == (segment.end - segment.start) * 32);
        }
        let ghost src = flat(self.color, data@.len());
        let count = data.len() / 4;
        assert(data@.len() == data.len());
        let mut j: usize = 0;
        while j < count
            invariant
                src == flat(self.color, old(data)@.len()),
                old(data)@.len() % 4 == 0,
                count * 4 == old(data)@.len(),
                count * 4 <= usize::MAX,
                j <= count,
                data@.len() == old(data)@.len(),
                forall|i: int|
                    0 <= i < data@.len() ==> #[trigger] data@[i] == if i < j * 4 {
                        sprite_blend(old(data)@, src)[i]
                    } else {
                        old(data)@[i]
                    },
            decreases count - j,
        {
            blend_sprite_pixel(data, j * 4, self.color);
            assert forall|i: int| j * 4 <= i < j * 4 + 4 implies src[i] == #[trigger] self.color@[i
                - j * 4] by {
                assert(i % 4 == i - j * 4);
            }
            j += 1;
        }
        assert(data@ =~= sprite_blend(old(data)@, src));
    }
}

impl<
    L: Fn(Option<Range<isize>>) -> Range<isize>,
    S: Fn(Option<Range<isize>>, isize, Range<isize>) -> Range<isize>,
> Effect<RgbaNoPadding<8>> for ColorClip<RgbaNoPadding<8>, L, S, [u8; 4]> {
    open spec fn well_formed(&self) -> bool {
        lines_fn_ok(self.lines_fn()) && segments_fn_ok(self.segments_fn())
    }

    open spec fn spec_lines(&self, all_lines_range: Option<Range<isize>>) -> Range<isize> {
        clip_lines(*self, all_lines_range)
    }

    open spec fn spec_line_segment(
        &self,
        all_lines_range: Option<Range<isize>>,
        line: isize,
        line_span: Range<isize>,
    ) -> Range<isize> {
        clip_segment(*self, all_lines_range, line, line_span)
    }

    open spec fn spec_render(
        &self,
        all_lines_range: Option<Range<isize>>,
        line: isize,
        line_span: Range<isize>,
        segment: Range<isize>,
        offset_bits: usize,
        data: Seq<u8>,
    ) -> Seq<u8> {
        effect_blend(data, flat(self.color_value(), data.len()))
    }

    fn lines(&self, all_lines_range: Option<Range<isize>>) -> (r: Range<isize>) {
        let ghost h = all_lines_range;
        let r = (self.lines)(all_lines_range);
        proof {
            let c = clip_lines(*self, h);
            assert(self.lines_fn().ensures((h,), c));
        }
        r
    }

    fn line_segment(
        &self,
        all_lines_range: Option<Range<isize>>,
        line: isize,
        line_span: Range<isize>,
    ) -> (r: Range<isize>) {
        let ghost h = all_lines_range;
        let ghost span = line_span;
        let r = (self.segments)(all_lines_range, line, line_span);
        proof {
            let c = clip_segment(*self, h, line, span);
            assert(self.segments_fn().ensures((h, line, span), c));
        }
        r
    }

    fn render(
        &self,
        all_lines_range: Option<Range<isize>>,
        line: isize,
        line_span: Range<isize>,
        segment: Range<isize>,
        offset_bits: usize,
        data: &mut [u8],
    ) {
        proof {
            assert(data@.len() * 8 == (segment.end - segment.start) * 32);
        }
        let ghost src = flat(self.color, data@.len());
        let count = data.len() / 4;
        assert(data@.len() == data.len());
        let mut j: usize = 0;
        while j < count
            invariant
                src == flat(self.color, old(data)@.len()),
                old(data)@.len() % 4 == 0,
                count * 4 == old(data)@.len(),
                count * 4 <= usize::MAX,
                j <= count,
                data@.len() == old(data)@.len(),
                forall|i: int|
                    0 <= i < data@.len() ==> #[trigger] data@[i] == if i < j * 4 {
                        effect_blend(old(data)@, src)[i]
                    } else {
                        old(data)@[i]
                    },
            decreases count - j,
        {
            blend_effect_pixel(data, j * 4, self.color);
            assert forall|i: int| j * 4 <= i < j * 4 + 4 implies src[i] == #[trigger] self.color@[i
                - j * 4] by {
                assert(i % 4 == i - j * 4);
                assert(alpha_index(i) % 4 == 3);
            }
            j += 1;
        }
        assert(data@ =~= effect_blend(old(data)@, src));
    }
}

} // verus!
