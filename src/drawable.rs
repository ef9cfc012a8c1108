//! What every renderable source offers the compositor.
//!
//! A drawable describes itself by spec functions: the lines it covers, the
//! columns it covers on each of them, and what rendering one segment does to
//! the bytes handed to it. Its executable methods are held to those.

use crate::interval::contains;
use crate::PixelFormat;
use std::ops::Range;
use vstd::prelude::*;

verus! {

/// What the compositor guarantees to a drawable's `render`, in the
/// drawable's own coordinates: the line is one it covers, the segment is a
/// non-empty part of the columns it covers there, and the bytes are exactly
/// those that hold the segment, its first pixel starting `offset_bits` into
/// the first of them. Where pixels are whole bytes, that offset is 0.
pub open spec fn render_args_ok(
    lines: Range<isize>,
    columns: Range<isize>,
    line: isize,
    segment: Range<isize>,
    offset_bits: usize,
    stride_bits: nat,
    data_len: nat,
) -> bool {
    &&& contains(lines, line as int)
    &&& columns.start <= segment.start < segment.end <= columns.end
    &&& offset_bits < 8
    &&& data_len == (offset_bits + (segment.end - segment.start) * stride_bits + 7) / 8
    &&& stride_bits % 8 == 0 ==> offset_bits == 0 && data_len * 8 == (segment.end - segment.start)
        * stride_bits
}

/// A drawable that is composited in front-to-back order: what was drawn
/// before stays in front. All coordinates are sprite-relative.
pub trait Sprite<P: PixelFormat> {
    /// Whether the sprite's own data is in order.
    spec fn well_formed(&self) -> bool;

    /// The lines this sprite covers.
    spec fn spec_lines(&self, all_lines_range: Option<Range<isize>>) -> Range<isize>;

    /// The columns this sprite covers on `line`.
    spec fn spec_line_segment(
        &self,
        all_lines_range: Option<Range<isize>>,
        line: isize,
        line_span: Range<isize>,
    ) -> Range<isize>;

    /// The bytes after rendering `segment` of `line` onto `data`.
    spec fn spec_render(
        &self,
        all_lines_range: Option<Range<isize>>,
        line: isize,
        line_span: Range<isize>,
        segment: Range<isize>,
        offset_bits: usize,
        data: Seq<u8>,
    ) -> Seq<u8>;

    /// Gets the applicable line range.
    fn lines(&self, all_lines_range: Option<Range<isize>>) -> (r: Range<isize>)
        requires
            self.well_formed(),
        ensures
            r == self.spec_lines(all_lines_range),
    ;

    /// Gets the line segment affected by a particular line in this sprite.
    fn line_segment(
        &self,
        all_lines_range: Option<Range<isize>>,
        line: isize,
        line_span: Range<isize>,
    ) -> (r: Range<isize>)
        requires
            self.well_formed(),
            contains(self.spec_lines(all_lines_range), line as int),
        ensures
            r == self.spec_line_segment(all_lines_range, line, line_span),
            r.start <= r.end,
    ;

    /// Renders the given segment of the given line into `data`, whose first
    /// pixel starts `offset_bits` into its first byte.
    fn render(
        &self,
        all_lines_range: Option<Range<isize>>,
        line: isize,
        line_span: Range<isize>,
        segment: Range<isize>,
        offset_bits: usize,
        data: &mut [u8],
    )
        requires
            self.well_formed(),
            render_args_ok(
                self.spec_lines(all_lines_range),
                self.spec_line_segment(all_lines_range, line, line_span),
                line,
                segment,
                offset_bits,
                P::stride_bits(),
                old(data)@.len(),
            ),
        ensures
            final(data)@ == self.spec_render(
                all_lines_range,
                line,
                line_span,
                segment,
                offset_bits,
                old(data)@,
            ),
            final(data)@.len() == old(data)@.len(),
    ;
}

/// A drawable that is composited over everything drawn before it, after all
/// sprites. All coordinates are effect-relative.
pub trait Effect<P: PixelFormat> {
    /// Whether the effect's own data is in order.
    spec fn well_formed(&self) -> bool;

    /// The lines this effect covers.
    spec fn spec_lines(&self, all_lines_range: Option<Range<isize>>) -> Range<isize>;

    /// The columns this effect covers on `line`.
    spec fn spec_line_segment(
        &self,
        all_lines_range: Option<Range<isize>>,
        line: isize,
        line_span: Range<isize>,
    ) -> Range<isize>;

    /// The bytes after rendering `segment` of `line` over `data`.
    spec fn spec_render(
        &self,
        all_lines_range: Option<Range<isize>>,
        line: isize,
        line_span: Range<isize>,
        segment: Range<isize>,
        offset_bits: usize,
        data: Seq<u8>,
    ) -> Seq<u8>;

    /// Gets the applicable line range.
    fn lines(&self, all_lines_range: Option<Range<isize>>) -> (r: Range<isize>)
        requires
            self.well_formed(),
        ensures
            r == self.spec_lines(all_lines_range),
    ;

    /// Gets the line segment affected by a particular line in this effect.
    fn line_segment(
        &self,
        all_lines_range: Option<Range<isize>>,
        line: isize,
        line_span: Range<isize>,
    ) -> (r: Range<isize>)
        requires
            self.well_formed(),
            contains(self.spec_lines(all_lines_range), line as int),
        ensures
            r == self.spec_line_segment(all_lines_range, line, line_span),
            r.start <= r.end,
    ;

    /// Renders the given segment of the given line over `data`, whose first
    /// pixel starts `offset_bits` into its first byte.
    fn render(
        &self,
        all_lines_range: Option<Range<isize>>,
        line: isize,
        line_span: Range<isize>,
        segment: Range<isize>,
        offset_bits: usize,
        data: &mut [u8],
    )
        requires
            self.well_formed(),
            render_args_ok(
                self.spec_lines(all_lines_range),
                self.spec_line_segment(all_lines_range, line, line_span),
                line,
                segment,
                offset_bits,
                P::stride_bits(),
                old(data)@.len(),
            ),
        ensures
            final(data)@ == self.spec_render(
                all_lines_range,
                line,
                line_span,
                segment,
                offset_bits,
                old(data)@,
            ),
            final(data)@.len() == old(data)@.len(),
    ;
}

/// A shared reference to a sprite draws as the sprite itself.
impl<'a, P: PixelFormat, T: Sprite<P>> Sprite<P> for &'a T {
    open spec fn well_formed(&self) -> bool {
        (**self).well_formed()
    }

    open spec fn spec_lines(&self, all_lines_range: Option<Range<isize>>) -> Range<isize> {
        (**self).spec_lines(all_lines_range)
    }

    open spec fn spec_line_segment(
        &self,
        all_lines_range: Option<Range<isize>>,
        line: isize,
        line_span: Range<isize>,
    ) -> Range<isize> {
        (**self).spec_line_segment(all_lines_range, line, line_span)
    }

    open spec fn spec_render(
        &self,
        all_lines_range: Option<Range<isize>>,
        line: isize,
        line_span: Range<isize>,
        segment: Range<isize>,
        offset_bits: usize,
        data: Seq<u8>,
    ) -> Seq<u8> {
        (**self).spec_render(all_lines_range, line, line_span, segment, offset_bits, data)
    }

    fn lines(&self, all_lines_range: Option<Range<isize>>) -> (r: Range<isize>) {
        T::lines(self, all_lines_range)
    }

    fn line_segment(
        &self,
        all_lines_range: Option<Range<isize>>,
        line: isize,
        line_span: Range<isize>,
    ) -> (r: Range<isize>) {
        T::line_segment(self, all_lines_range, line, line_span)
    }

    fn render(
        &self,
        all_lines_range: Option<Range<isize>>,
        line: isize,
        line_span: Range<isize>,
        segment: Range<isize>,
        offset_bits: usize,
        data: &mut [u8],
    ) {
        T::render(self, all_lines_range, line, line_span, segment, offset_bits, data)
    }
}

/// A shared reference to an effect draws as the effect itself.
impl<'a, P: PixelFormat, T: Effect<P>> Effect<P> for &'a T {
    open spec fn well_formed(&self) -> bool {
        (**self).well_formed()
    }

    open spec fn spec_lines(&self, all_lines_range: Option<Range<isize>>) -> Range<isize> {
        (**self).spec_lines(all_lines_range)
    }

    open spec fn spec_line_segment(
        &self,
        all_lines_range: Option<Range<isize>>,
        line: isize,
        line_span: Range<isize>,
    ) -> Range<isize> {
        (**self).spec_line_segment(all_lines_range, line, line_span)
    }

    open spec fn spec_render(
        &self,
        all_lines_range: Option<Range<isize>>,
        line: isize,
        line_span: Range<isize>,
        segment: Range<isize>,
        offset_bits: usize,
        data: Seq<u8>,
    ) -> Seq<u8> {
        (**self).spec_render(all_lines_range, line, line_span, segment, offset_bits, data)
    }

    fn lines(&self, all_lines_range: Option<Range<isize>>) -> (r: Range<isize>) {
        T::lines(self, all_lines_range)
    }

    fn line_segment(
        &self,
        all_lines_range: Option<Range<isize>>,
        line: isize,
        line_span: Range<isize>,
    ) -> (r: Range<isize>) {
        T::line_segment(self, all_lines_range, line, line_span)
    }

    fn render(
        &self,
        all_lines_range: Option<Range<isize>>,
        line: isize,
        line_span: Range<isize>,
        segment: Range<isize>,
        offset_bits: usize,
        data: &mut [u8],
    ) {
        T::render(self, all_lines_range, line, line_span, segment, offset_bits, data)
    }
}

} // verus!
