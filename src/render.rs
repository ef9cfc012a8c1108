//! The compositor: for one line, each drawable is moved into its own
//! coordinates, clipped to the requested segment, and handed exactly the
//! bytes of the columns it may touch.
//!
//! Sprites are drawn first, in the order given, then effects, in the order
//! given.

use crate::drawable::{Effect, Sprite};
use crate::interval::{can_shift, contains, intersect, offset, overlap, shifted};
use crate::{PixelFormat, Position};
use std::ops::Range;
use vstd::arithmetic::div_mod::{
    lemma_div_is_ordered, lemma_div_multiples_vanish_fancy, lemma_hoist_over_denominator,
    lemma_mod_multiples_vanish, lemma_mul_mod_noop,
};
use vstd::arithmetic::mul::lemma_mul_inequality;
use vstd::prelude::*;

verus! {

/// Bit offset, within the first byte of the buffer, of the first pixel of a
/// segment that starts at column `start`.
pub open spec fn segment_offset_bits(start: int, stride_bits: nat) -> int {
    (start * stride_bits) % 8
}

/// The bit of the buffer at which the pixel `column` places into the
/// segment starts (counting from the segment's first pixel, which starts
/// `offset_bits` into the buffer).
pub open spec fn bit_at(offset_bits: int, column: int, stride_bits: nat) -> int {
    offset_bits + column * stride_bits
}

/// The index of the byte that holds `bit`.
pub open spec fn byte_of(bit: int) -> int {
    bit / 8
}

/// The index just past the last byte that holds some bit before `bit`.
pub open spec fn byte_end(bit: int) -> int {
    (bit + 7) / 8
}

/// The number of bytes a buffer needs to hold `segment_span`.
pub open spec fn bytes_needed(segment_span: Range<isize>, stride_bits: nat) -> int {
    byte_end(
        bit_at(
            segment_offset_bits(segment_span.start as int, stride_bits),
            segment_span.end - segment_span.start,
            stride_bits,
        ),
    )
}

/// The line hint as a drawable moved by `k` lines sees it.
pub open spec fn shifted_hint(hint: Option<Range<isize>>, k: int) -> Option<Range<isize>> {
    match hint {
        Some(h) => Some(shifted(h, k)),
        None => None,
    }
}

/// Whether a drawable at `position` can be brought into its own coordinates
/// without leaving the range of `isize`.
pub open spec fn placeable(
    position: Position,
    all_lines_range: Option<Range<isize>>,
    line_index: isize,
    line_span: Range<isize>,
    segment_span: Range<isize>,
) -> bool {
    &&& position.x > isize::MIN
    &&& position.y > isize::MIN
    &&& isize::MIN <= line_index - position.y <= isize::MAX
    &&& all_lines_range matches Some(h) ==> can_shift(h, -position.y)
    &&& can_shift(line_span, -position.x)
    &&& can_shift(segment_span, -position.x)
}

/// `buf` with the bytes in `[lo, hi)` replaced by `part`.
pub open spec fn splice(buf: Seq<u8>, lo: int, hi: int, part: Seq<u8>) -> Seq<u8> {
    buf.subrange(0, lo) + part + buf.subrange(hi, buf.len() as int)
}

/// What drawing one sprite at `position` does to the segment's bytes `buf`.
pub open spec fn sprite_step<P: PixelFormat, S: Sprite<P>>(
    position: Position,
    sprite: S,
    all_lines_range: Option<Range<isize>>,
    line_index: isize,
    line_span: Range<isize>,
    segment_span: Range<isize>,
    buf: Seq<u8>,
) -> Seq<u8> {
    let hint = shifted_hint(all_lines_range, -position.y);
    let line = (line_index - position.y) as isize;
    let local_line_span = shifted(line_span, -position.x);
    let local_segment = shifted(segment_span, -position.x);
    let offset_bits = segment_offset_bits(segment_span.start as int, P::stride_bits());
    if !contains(sprite.spec_lines(hint), line as int) {
        buf
    } else {
        match overlap(local_segment, sprite.spec_line_segment(hint, line, local_line_span)) {
            None => buf,
            Some(visible) => {
                let first_bit = bit_at(
                    offset_bits,
                    visible.start + position.x - segment_span.start,
                    P::stride_bits(),
                );
                let end_bit = bit_at(
                    offset_bits,
                    visible.end + position.x - segment_span.start,
                    P::stride_bits(),
                );
                let lo = byte_of(first_bit);
                let hi = byte_end(end_bit);
                splice(
                    buf,
                    lo,
                    hi,
                    sprite.spec_render(
                        hint,
                        line,
                        local_line_span,
                        visible,
                        (first_bit % 8) as usize,
                        buf.subrange(lo, hi),
                    ),
                )
            },
        }
    }
}

/// What drawing one effect at `position` does to the segment's bytes `buf`.
pub open spec fn effect_step<P: PixelFormat, E: Effect<P>>(
    position: Position,
    effect: E,
    all_lines_range: Option<Range<isize>>,
    line_index: isize,
    line_span: Range<isize>,
    segment_span: Range<isize>,
    buf: Seq<u8>,
) -> Seq<u8> {
    let hint = shifted_hint(all_lines_range, -position.y);
    let line = (line_index - position.y) as isize;
    let local_line_span = shifted(line_span, -position.x);
    let local_segment = shifted(segment_span, -position.x);
    let offset_bits = segment_offset_bits(segment_span.start as int, P::stride_bits());
    if !contains(effect.spec_lines(hint), line as int) {
        buf
    } else {
        match overlap(local_segment, effect.spec_line_segment(hint, line, local_line_span)) {
            None => buf,
            Some(visible) => {
                let first_bit = bit_at(
                    offset_bits,
                    visible.start + position.x - segment_span.start,
                    P::stride_bits(),
                );
                let end_bit = bit_at(
                    offset_bits,
                    visible.end + position.x - segment_span.start,
                    P::stride_bits(),
                );
                let lo = byte_of(first_bit);
                let hi = byte_end(end_bit);
                splice(
                    buf,
                    lo,
                    hi,
                    effect.spec_render(
                        hint,
                        line,
                        local_line_span,
                        visible,
                        (first_bit % 8) as usize,
                        buf.subrange(lo, hi),
                    ),
                )
            },
        }
    }
}

/// The segment's bytes after drawing `sprites` in order onto `buf`.
pub open spec fn sprites_drawn<P: PixelFormat, S: Sprite<P>>(
    sprites: Seq<(Position, S)>,
    all_lines_range: Option<Range<isize>>,
    line_index: isize,
    line_span: Range<isize>,
    segment_span: Range<isize>,
    buf: Seq<u8>,
) -> Seq<u8>
    decreases sprites.len(),
{
    if sprites.len() == 0 {
        buf
    } else {
        sprite_step::<P, S>(
            sprites.last().0,
            sprites.last().1,
            all_lines_range,
            line_index,
            line_span,
            segment_span,
            sprites_drawn::<P, S>(
                sprites.drop_last(),
                all_lines_range,
                line_index,
                line_span,
                segment_span,
                buf,
            ),
        )
    }
}

/// The segment's bytes after drawing `effects` in order over `buf`.
pub open spec fn effects_drawn<P: PixelFormat, E: Effect<P>>(
    effects: Seq<(Position, E)>,
    all_lines_range: Option<Range<isize>>,
    line_index: isize,
    line_span: Range<isize>,
    segment_span: Range<isize>,
    buf: Seq<u8>,
) -> Seq<u8>
    decreases effects.len(),
{
    if effects.len() == 0 {
        buf
    } else {
        effect_step::<P, E>(
            effects.last().0,
            effects.last().1,
            all_lines_range,
            line_index,
            line_span,
            segment_span,
            effects_drawn::<P, E>(
                effects.drop_last(),
                all_lines_range,
                line_index,
                line_span,
                segment_span,
                buf,
            ),
        )
    }
}

/// What the segment and its buffer must satisfy for any drawing to happen.
pub open spec fn segment_ok<P: PixelFormat>(segment_span: Range<isize>, buffer_len: nat) -> bool {
    &&& P::stride_bits() <= usize::MAX
    &&& P::stride_bits() <= i64::MAX
    &&& i64::MIN <= segment_span.start * P::stride_bits() <= i64::MAX
    &&& segment_span.start <= segment_span.end
    &&& (segment_span.end - segment_span.start) * P::stride_bits() + segment_offset_bits(
        segment_span.start as int,
        P::stride_bits(),
    ) + 7 <= usize::MAX
    &&& bytes_needed(segment_span, P::stride_bits()) <= buffer_len
}

fn copy_range(r: &Range<isize>) -> (c: Range<isize>)
    ensures
        c == *r,
{
    r.start..r.end
}

fn copy_hint(hint: &Option<Range<isize>>) -> (c: Option<Range<isize>>)
    ensures
        c == *hint,
{
    match hint {
        Some(h) => Some(h.start..h.end),
        None => None,
    }
}

fn offset_hint(hint: &Option<Range<isize>>, k: isize) -> (c: Option<Range<isize>>)
    requires
        *hint matches Some(h) ==> can_shift(h, k as int),
    ensures
        c == shifted_hint(*hint, k as int),
{
    match hint {
        Some(h) => Some(offset(h, k)),
        None => None,
    }
}

/// The bit offset of the segment's first pixel, computed without any
/// intermediate product, so that no coordinate is too extreme for it.
fn offset_bits_of(start: isize, stride: usize) -> (r: usize)
    ensures
        r == segment_offset_bits(start as int, stride as nat),
        r < 8,
{
    let start_mod: usize = if start >= 0 {
        (start % 8) as usize
    } else {
        let m = (-(start as i128)) % 8;
        if m == 0 { 0 } else { (8 - m) as usize }
    };
    proof {
        assert(start_mod == (start as int) % 8) by {
            if start < 0 {
                let m = (-(start as int)) % 8;
                assert((start as int) % 8 == if m == 0 { 0 } else { 8 - m }) by (nonlinear_arith)
                    requires start < 0, m == (-(start as int)) % 8;
            }
        }
        lemma_mul_mod_noop(start as int, stride as int, 8);
        assert(start_mod * (stride % 8) < 64) by (nonlinear_arith)
            requires start_mod < 8, stride % 8 < 8;
    }
    (start_mod * (stride % 8)) % 8
}

/// Where in the buffer the visible columns `[start, end)` of a drawable at
/// `x` lie: the bytes `[lo, hi)` that hold any of their bits, and the bit
/// offset of their first pixel within byte `lo`.
fn byte_clip(
    visible: &Range<isize>,
    x: isize,
    segment_span: &Range<isize>,
    offset_bits: usize,
    stride: usize,
    buffer_len: usize,
) -> (r: (usize, usize, usize))
    requires
        segment_span.start <= visible.start + x <= visible.end + x <= segment_span.end,
        (segment_span.end - segment_span.start) * stride + offset_bits + 7 <= usize::MAX,
        offset_bits < 8,
        byte_end(
            bit_at(offset_bits as int, segment_span.end - segment_span.start, stride as nat),
        ) <= buffer_len,
    ensures
        ({
            let first_bit = bit_at(
                offset_bits as int,
                visible.start + x - segment_span.start,
                stride as nat,
            );
            let end_bit = bit_at(
                offset_bits as int,
                visible.end + x - segment_span.start,
                stride as nat,
            );
            &&& r.0 == byte_of(first_bit)
            &&& r.1 == byte_end(end_bit)
            &&& r.2 == first_bit % 8
        }),
        r.0 <= r.1 <= buffer_len,
        r.2 < 8,
        r.1 - r.0 == (r.2 + (visible.end - visible.start) * stride + 7) / 8,
        stride % 8 == 0 && offset_bits == 0 ==> r.2 == 0 && (r.1 - r.0) * 8 == (visible.end
            - visible.start) * stride,
{
    let len = segment_span.end as i128 - segment_span.start as i128;
    let first = ((visible.start + x) as i128 - segment_span.start as i128) as usize;
    let last = ((visible.end + x) as i128 - segment_span.start as i128) as usize;
    proof {
        lemma_mul_inequality(first as int, last as int, stride as int);
        lemma_mul_inequality(last as int, len as int, stride as int);
        lemma_div_is_ordered(offset_bits + last * stride + 7, offset_bits + len * stride + 7, 8);
    }
    let first_bit = offset_bits + first * stride;
    let end_bit = offset_bits + last * stride;
    let lo = first_bit / 8;
    let bits = first_bit % 8;
    let hi = (end_bit + 7) / 8;
    proof {
        let n = (last - first) as int;
        assert(n * stride == last * stride - first * stride) by (nonlinear_arith)
            requires n == last - first;
        assert(first_bit == 8 * lo + bits);
        assert(end_bit + 7 == (bits + n * stride + 7) + lo * 8);
        lemma_hoist_over_denominator(bits + n * stride + 7, lo as int, 8);
        assert(hi - lo == (bits + n * stride + 7) / 8);
        if stride % 8 == 0 && offset_bits == 0 {
            let m = stride as int / 8;
            assert(first * stride == 8 * (first * m)) by (nonlinear_arith)
                requires stride == 8 * m;
            lemma_mod_multiples_vanish(first * m, 0, 8);
            assert(bits == 0);
            assert(n * stride == 8 * (n * m)) by (nonlinear_arith)
                requires stride == 8 * m;
            lemma_div_multiples_vanish_fancy(n * m, 7, 8);
        }
    }
    (lo, hi, bits)
}

fn draw_sprite<P: PixelFormat, S: Sprite<P>>(
    position: Position,
    sprite: &S,
    all_lines_range: &Option<Range<isize>>,
    line_index: isize,
    line_span: &Range<isize>,
    segment_span: &Range<isize>,
    offset_bits: usize,
    stride: usize,
    buffer: &mut [u8],
)
    requires
        sprite.well_formed(),
        placeable(position, *all_lines_range, line_index, *line_span, *segment_span),
        segment_ok::<P>(*segment_span, old(buffer)@.len()),
        stride == P::stride_bits(),
        offset_bits == segment_offset_bits(segment_span.start as int, stride as nat),
    ensures
        final(buffer)@ == sprite_step::<P, S>(
            position,
            *sprite,
            *all_lines_range,
            line_index,
            *line_span,
            *segment_span,
            old(buffer)@,
        ),
        final(buffer)@.len() == old(buffer)@.len(),
{
    let hint = offset_hint(all_lines_range, -position.y);
    let line = line_index - position.y;
    let lines = sprite.lines(copy_hint(&hint));
    if !(lines.start <= line && line < lines.end) {
        return;
    }
    let local_line_span = offset(line_span, -position.x);
    let local_segment = offset(segment_span, -position.x);
    let columns = sprite.line_segment(copy_hint(&hint), line, copy_range(&local_line_span));
    if let Some(visible) = intersect(&local_segment, &columns) {
        let (lo, hi, bits) = byte_clip(
            &visible,
            position.x,
            segment_span,
            offset_bits,
            stride,
            buffer.len(),
        );
        proof {
            if stride % 8 == 0 {
                lemma_mul_mod_noop(segment_span.start as int, stride as int, 8);
            }
        }
        let ghost before = buffer@;
        let (head, rest) = buffer.split_at_mut(lo);
        let (part, tail) = rest.split_at_mut(hi - lo);
        sprite.render(hint, line, local_line_span, visible, bits, part);
        proof {
            assert(before.subrange(lo as int, hi as int) =~= before.subrange(lo as int, before.len() as int).subrange(0, hi - lo));
        }
    }
}

fn draw_effect<P: PixelFormat, E: Effect<P>>(
    position: Position,
    effect: &E,
    all_lines_range: &Option<Range<isize>>,
    line_index: isize,
    line_span: &Range<isize>,
    segment_span: &Range<isize>,
    offset_bits: usize,
    stride: usize,
    buffer: &mut [u8],
)
    requires
        effect.well_formed(),
        placeable(position, *all_lines_range, line_index, *line_span, *segment_span),
        segment_ok::<P>(*segment_span, old(buffer)@.len()),
        stride == P::stride_bits(),
        offset_bits == segment_offset_bits(segment_span.start as int, stride as nat),
    ensures
        final(buffer)@ == effect_step::<P, E>(
            position,
            *effect,
            *all_lines_range,
            line_index,
            *line_span,
            *segment_span,
            old(buffer)@,
        ),
        final(buffer)@.len() == old(buffer)@.len(),
{
    let hint = offset_hint(all_lines_range, -position.y);
    let line = line_index - position.y;
    let lines = effect.lines(copy_hint(&hint));
    if !(lines.start <= line && line < lines.end) {
        return;
    }
    let local_line_span = offset(line_span, -position.x);
    let local_segment = offset(segment_span, -position.x);
    let columns = effect.line_segment(copy_hint(&hint), line, copy_range(&local_line_span));
    if let Some(visible) = intersect(&local_segment, &columns) {
        let (lo, hi, bits) = byte_clip(
            &visible,
            position.x,
            segment_span,
            offset_bits,
            stride,
            buffer.len(),
        );
        proof {
            if stride % 8 == 0 {
                lemma_mul_mod_noop(segment_span.start as int, stride as int, 8);
            }
        }
        let ghost before = buffer@;
        let (head, rest) = buffer.split_at_mut(lo);
        let (part, tail) = rest.split_at_mut(hi - lo);
        effect.render(hint, line, local_line_span, visible, bits, part);
        proof {
            assert(before.subrange(lo as int, hi as int) =~= before.subrange(lo as int, before.len() as int).subrange(0, hi - lo));
        }
    }
}


fn draw_sprites<P: PixelFormat, S: Sprite<P>>(
    all_lines_range: &Option<Range<isize>>,
    line_index: isize,
    line_span: &Range<isize>,
    segment_span: &Range<isize>,
    offset_bits: usize,
    stride: usize,
    buffer: &mut [u8],
    sprites: &[(Position, S)],
)
    requires
        forall|i: int|
            0 <= i < sprites@.len() ==> #[trigger] sprites@[i].1.well_formed() && placeable(
                sprites@[i].0,
                *all_lines_range,
                line_index,
                *line_span,
                *segment_span,
            ),
        segment_ok::<P>(*segment_span, old(buffer)@.len()),
        stride == P::stride_bits(),
        offset_bits == segment_offset_bits(segment_span.start as int, stride as nat),
    ensures
        final(buffer)@ == sprites_drawn::<P, S>(
            sprites@,
            *all_lines_range,
            line_index,
            *line_span,
            *segment_span,
            old(buffer)@,
        ),
        final(buffer)@.len() == old(buffer)@.len(),
{
    let ghost initial = buffer@;
    let mut i: usize = 0;
    while i < sprites.len()
        invariant
            i <= sprites@.len(),
            forall|i: int|
                0 <= i < sprites@.len() ==> #[trigger] sprites@[i].1.well_formed() && placeable(
                    sprites@[i].0,
                    *all_lines_range,
                    line_index,
                    *line_span,
                    *segment_span,
                ),
            segment_ok::<P>(*segment_span, initial.len()),
            stride == P::stride_bits(),
            offset_bits == segment_offset_bits(segment_span.start as int, stride as nat),
            buffer@.len() == initial.len(),
            buffer@ == sprites_drawn::<P, S>(
                sprites@.subrange(0, i as int),
                *all_lines_range,
                line_index,
                *line_span,
                *segment_span,
                initial,
            ),
        decreases sprites@.len() - i,
    {
        let entry = &sprites[i];
        assert(entry.1.well_formed());
        draw_sprite::<P, S>(
            entry.0,
            &entry.1,
            all_lines_range,
            line_index,
            line_span,
            segment_span,
            offset_bits,
            stride,
            buffer,
        );
        assert(sprites@.subrange(0, i + 1).drop_last() =~= sprites@.subrange(0, i as int));
        i += 1;
    }
    assert(sprites@.subrange(0, i as int) =~= sprites@);
}

fn draw_effects<P: PixelFormat, E: Effect<P>>(
    all_lines_range: &Option<Range<isize>>,
    line_index: isize,
    line_span: &Range<isize>,
    segment_span: &Range<isize>,
    offset_bits: usize,
    stride: usize,
    buffer: &mut [u8],
    effects: &[(Position, E)],
)
    requires
        forall|i: int|
            0 <= i < effects@.len() ==> #[trigger] effects@[i].1.well_formed() && placeable(
                effects@[i].0,
                *all_lines_range,
                line_index,
                *line_span,
                *segment_span,
            ),
        segment_ok::<P>(*segment_span, old(buffer)@.len()),
        stride == P::stride_bits(),
        offset_bits == segment_offset_bits(segment_span.start as int, stride as nat),
    ensures
        final(buffer)@ == effects_drawn::<P, E>(
            effects@,
            *all_lines_range,
            line_index,
            *line_span,
            *segment_span,
            old(buffer)@,
        ),
        final(buffer)@.len() == old(buffer)@.len(),
{
    let ghost initial = buffer@;
    let mut i: usize = 0;
    while i < effects.len()
        invariant
            i <= effects@.len(),
            forall|i: int|
                0 <= i < effects@.len() ==> #[trigger] effects@[i].1.well_formed() && placeable(
                    effects@[i].0,
                    *all_lines_range,
                    line_index,
                    *line_span,
                    *segment_span,
                ),
            segment_ok::<P>(*segment_span, initial.len()),
            stride == P::stride_bits(),
            offset_bits == segment_offset_bits(segment_span.start as int, stride as nat),
            buffer@.len() == initial.len(),
            buffer@ == effects_drawn::<P, E>(
                effects@.subrange(0, i as int),
                *all_lines_range,
                line_index,
                *line_span,
                *segment_span,
                initial,
            ),
        decreases effects@.len() - i,
    {
        let entry = &effects[i];
        assert(entry.1.well_formed());
        draw_effect::<P, E>(
            entry.0,
            &entry.1,
            all_lines_range,
            line_index,
            line_span,
            segment_span,
            offset_bits,
            stride,
            buffer,
        );
        assert(effects@.subrange(0, i + 1).drop_last() =~= effects@.subrange(0, i as int));
        i += 1;
    }
    assert(effects@.subrange(0, i as int) =~= effects@);
}

/// Whether every drawable in `drawables` can be placed for this line and
/// segment.
pub open spec fn all_placeable<D>(
    drawables: Seq<(Position, D)>,
    all_lines_range: Option<Range<isize>>,
    line_index: isize,
    line_span: Range<isize>,
    segment_span: Range<isize>,
) -> bool {
    forall|i: int|
        0 <= i < drawables.len() ==> placeable(
            #[trigger] drawables[i].0,
            all_lines_range,
            line_index,
            line_span,
            segment_span,
        )
}

/// Whether every sprite in `sprites` is well formed.
pub open spec fn sprites_well_formed<P: PixelFormat, S: Sprite<P>>(
    sprites: Seq<(Position, S)>,
) -> bool {
    forall|i: int| 0 <= i < sprites.len() ==> #[trigger] sprites[i].1.well_formed()
}

/// Whether every effect in `effects` is well formed.
pub open spec fn effects_well_formed<P: PixelFormat, E: Effect<P>>(
    effects: Seq<(Position, E)>,
) -> bool {
    forall|i: int| 0 <= i < effects.len() ==> #[trigger] effects[i].1.well_formed()
}

/// The whole line that a buffer of `len` bytes holds, pixels being whole
/// bytes.
pub open spec fn whole_line<P: PixelFormat>(len: nat) -> Range<isize> {
    Range { start: 0, end: (len / (P::stride_bits() / 8)) as isize }
}

/// Renders a segment of a line: `buffer` holds the columns `segment_span`,
/// the first of them `segment_offset_bits` into its first byte. The sprites
/// are drawn first, in order, then the effects, in order; each one only
/// onto the bytes of the columns where it and the segment meet.
///
/// `line_span` is the extent of the whole line, handed to the drawables as a
/// hint, as is `all_lines_range`, the extent of all lines.
pub fn render_segment<P: PixelFormat, S: Sprite<P>, E: Effect<P>>(
    all_lines_range: &Option<Range<isize>>,
    line_index: isize,
    line_span: Range<isize>,
    segment_span: Range<isize>,
    buffer: &mut [u8],
    sprites: &[(Position, S)],
    effects: &[(Position, E)],
)
    requires
        segment_ok::<P>(segment_span, old(buffer)@.len()),
        sprites_well_formed::<P, S>(sprites@),
        effects_well_formed::<P, E>(effects@),
        all_placeable(sprites@, *all_lines_range, line_index, line_span, segment_span),
        all_placeable(effects@, *all_lines_range, line_index, line_span, segment_span),
    ensures
        final(buffer)@ == effects_drawn::<P, E>(
            effects@,
            *all_lines_range,
            line_index,
            line_span,
            segment_span,
            sprites_drawn::<P, S>(
                sprites@,
                *all_lines_range,
                line_index,
                line_span,
                segment_span,
                old(buffer)@,
            ),
        ),
        final(buffer)@.len() == old(buffer)@.len(),
{
    let stride = P::pixel_stride_bits();
    let offset_bits = offset_bits_of(segment_span.start, stride);
    draw_sprites::<P, S>(
        all_lines_range,
        line_index,
        &line_span,
        &segment_span,
        offset_bits,
        stride,
        buffer,
        sprites,
    );
    draw_effects::<P, E>(
        all_lines_range,
        line_index,
        &line_span,
        &segment_span,
        offset_bits,
        stride,
        buffer,
        effects,
    );
}

/// Renders sprites under a segment of a line, as [`render_segment`] does
/// with no effects.
pub fn render_under_segment<P: PixelFormat, S: Sprite<P>>(
    all_lines_range: &Option<Range<isize>>,
    line_index: isize,
    line_span: Range<isize>,
    segment_span: Range<isize>,
    buffer: &mut [u8],
    sprites: &[(Position, S)],
)
    requires
        segment_ok::<P>(segment_span, old(buffer)@.len()),
        sprites_well_formed::<P, S>(sprites@),
        all_placeable(sprites@, *all_lines_range, line_index, line_span, segment_span),
    ensures
        final(buffer)@ == sprites_drawn::<P, S>(
            sprites@,
            *all_lines_range,
            line_index,
            line_span,
            segment_span,
            old(buffer)@,
        ),
        final(buffer)@.len() == old(buffer)@.len(),
{
    let stride = P::pixel_stride_bits();
    let offset_bits = offset_bits_of(segment_span.start, stride);
    draw_sprites::<P, S>(
        all_lines_range,
        line_index,
        &line_span,
        &segment_span,
        offset_bits,
        stride,
        buffer,
        sprites,
    );
}

/// Renders effects over a segment of a line, as [`render_segment`] does
/// with no sprites.
pub fn render_over_segment<P: PixelFormat, E: Effect<P>>(
    all_lines_range: &Option<Range<isize>>,
    line_index: isize,
    line_span: Range<isize>,
    segment_span: Range<isize>,
    buffer: &mut [u8],
    effects: &[(Position, E)],
)
    requires
        segment_ok::<P>(segment_span, old(buffer)@.len()),
        effects_well_formed::<P, E>(effects@),
        all_placeable(effects@, *all_lines_range, line_index, line_span, segment_span),
    ensures
        final(buffer)@ == effects_drawn::<P, E>(
            effects@,
            *all_lines_range,
            line_index,
            line_span,
            segment_span,
            old(buffer)@,
        ),
        final(buffer)@.len() == old(buffer)@.len(),
{
    let stride = P::pixel_stride_bits();
    let offset_bits = offset_bits_of(segment_span.start, stride);
    draw_effects::<P, E>(
        all_lines_range,
        line_index,
        &line_span,
        &segment_span,
        offset_bits,
        stride,
        buffer,
        effects,
    );
}

/// What a whole line asks of its buffer: pixels are whole bytes, the stride
/// fits an `i64`, and the buffer's bits can be counted in a `usize`.
pub open spec fn line_ok<P: PixelFormat>(buffer_len: nat) -> bool {
    &&& 0 < P::stride_bits() <= usize::MAX
    &&& P::stride_bits() <= i64::MAX
    &&& P::stride_bits() % 8 == 0
    &&& buffer_len * 8 + 7 <= usize::MAX
}

/// The columns of a whole line held by `buffer`, and that they make a valid
/// segment of it.
fn line_span_of<P: PixelFormat>(buffer: &[u8]) -> (r: Range<isize>)
    requires
        line_ok::<P>(buffer@.len()),
    ensures
        r == whole_line::<P>(buffer@.len()),
        segment_ok::<P>(r, buffer@.len()),
{
    let stride = P::pixel_stride_bits();
    let pixel_bytes = stride / 8;
    let pixels = buffer.len() / pixel_bytes;
    proof {
        let n = pixels as int;
        let m = pixel_bytes as int;
        let len = buffer@.len() as int;
        assert(stride as int == 8 * m);
        assert(n * m <= len) by (nonlinear_arith)
            requires n == len / m, m > 0, len >= 0;
        assert(n <= len) by (nonlinear_arith)
            requires n * m <= len, m > 0, n >= 0;
        assert(n * stride == 8 * (n * m)) by (nonlinear_arith)
            requires stride == 8 * m;
        lemma_div_multiples_vanish_fancy(n * m, 7, 8);
        assert(segment_offset_bits(0, stride as nat) == 0);
    }
    0..(pixels as isize)
}

/// Renders an entire line: `buffer` holds the line from its first column
/// on, and the line is as long as the buffer has whole pixels.
pub fn render_line<P: PixelFormat, S: Sprite<P>, E: Effect<P>>(
    all_lines_range: &Option<Range<isize>>,
    line_index: isize,
    buffer: &mut [u8],
    sprites: &[(Position, S)],
    effects: &[(Position, E)],
)
    requires
        line_ok::<P>(old(buffer)@.len()),
        sprites_well_formed::<P, S>(sprites@),
        effects_well_formed::<P, E>(effects@),
        all_placeable(
            sprites@,
            *all_lines_range,
            line_index,
            whole_line::<P>(old(buffer)@.len()),
            whole_line::<P>(old(buffer)@.len()),
        ),
        all_placeable(
            effects@,
            *all_lines_range,
            line_index,
            whole_line::<P>(old(buffer)@.len()),
            whole_line::<P>(old(buffer)@.len()),
        ),
    ensures
        final(buffer)@ == effects_drawn::<P, E>(
            effects@,
            *all_lines_range,
            line_index,
            whole_line::<P>(old(buffer)@.len()),
            whole_line::<P>(old(buffer)@.len()),
            sprites_drawn::<P, S>(
                sprites@,
                *all_lines_range,
                line_index,
                whole_line::<P>(old(buffer)@.len()),
                whole_line::<P>(old(buffer)@.len()),
                old(buffer)@,
            ),
        ),
        final(buffer)@.len() == old(buffer)@.len(),
{
    let line_span = line_span_of::<P>(buffer);
    render_segment::<P, S, E>(
        all_lines_range,
        line_index,
        copy_range(&line_span),
        line_span,
        buffer,
        sprites,
        effects,
    );
}

/// Renders sprites under an entire line, as [`render_line`] does with no
/// effects.
pub fn render_under_line<P: PixelFormat, S: Sprite<P>>(
    all_lines_range: &Option<Range<isize>>,
    line_index: isize,
    buffer: &mut [u8],
    sprites: &[(Position, S)],
)
    requires
        line_ok::<P>(old(buffer)@.len()),
        sprites_well_formed::<P, S>(sprites@),
        all_placeable(
            sprites@,
            *all_lines_range,
            line_index,
            whole_line::<P>(old(buffer)@.len()),
            whole_line::<P>(old(buffer)@.len()),
        ),
    ensures
        final(buffer)@ == sprites_drawn::<P, S>(
            sprites@,
            *all_lines_range,
            line_index,
            whole_line::<P>(old(buffer)@.len()),
            whole_line::<P>(old(buffer)@.len()),
            old(buffer)@,
        ),
        final(buffer)@.len() == old(buffer)@.len(),
{
    let line_span = line_span_of::<P>(buffer);
    render_under_segment::<P, S>(
        all_lines_range,
        line_index,
        copy_range(&line_span),
        line_span,
        buffer,
        sprites,
    );
}

/// Renders effects over an entire line, as [`render_line`] does with no
/// sprites.
pub fn render_over_line<P: PixelFormat, E: Effect<P>>(
    all_lines_range: &Option<Range<isize>>,
    line_index: isize,
    buffer: &mut [u8],
    effects: &[(Position, E)],
)
    requires
        line_ok::<P>(old(buffer)@.len()),
        effects_well_formed::<P, E>(effects@),
        all_placeable(
            effects@,
            *all_lines_range,
            line_index,
            whole_line::<P>(old(buffer)@.len()),
            whole_line::<P>(old(buffer)@.len()),
        ),
    ensures
        final(buffer)@ == effects_drawn::<P, E>(
            effects@,
            *all_lines_range,
            line_index,
            whole_line::<P>(old(buffer)@.len()),
            whole_line::<P>(old(buffer)@.len()),
            old(buffer)@,
        ),
        final(buffer)@.len() == old(buffer)@.len(),
{
    let line_span = line_span_of::<P>(buffer);
    render_over_segment::<P, E>(
        all_lines_range,
        line_index,
        copy_range(&line_span),
        line_span,
        buffer,
        effects,
    );
}

/// A sprite that, moved into its own coordinates, does not cover the line
/// or whose columns do not meet the requested segment leaves the buffer as
/// it is: nothing is rendered for it.
pub proof fn lemma_sprite_outside_untouched<P: PixelFormat, S: Sprite<P>>(
    position: Position,
    sprite: S,
    all_lines_range: Option<Range<isize>>,
    line_index: isize,
    line_span: Range<isize>,
    segment_span: Range<isize>,
    buf: Seq<u8>,
)
    requires
        ({
            let hint = shifted_hint(all_lines_range, -position.y);
            let line = (line_index - position.y) as isize;
            !contains(sprite.spec_lines(hint), line as int) || overlap(
                shifted(segment_span, -position.x),
                sprite.spec_line_segment(hint, line, shifted(line_span, -position.x)),
            ) is None
        }),
    ensures
        sprite_step::<P, S>(
            position,
            sprite,
            all_lines_range,
            line_index,
            line_span,
            segment_span,
            buf,
        ) == buf,
{
}

} // verus!
