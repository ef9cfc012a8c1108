//! Premultiplied-alpha blending of 8-bit RGBA pixels.
//!
//! Each channel is widened to `u16`, multiplied by the remaining
//! transparency, divided by 255 and narrowed back, then added with
//! saturation.

use vstd::prelude::*;

verus! {

/// The share of `value` that shows through where `alpha` covers it.
pub open spec fn transmitted(value: u8, alpha: u8) -> u8 {
    ((value as u16 * (255 - alpha) as u16) / 255) as u8
}

/// A sprite channel: the sprite's `src` goes behind what `dest` holds, and
/// shows only as far as the destination's alpha lets it.
pub open spec fn sprite_channel(dest: u8, src: u8, dest_alpha: u8) -> u8 {
    dest.saturating_add(transmitted(src, dest_alpha))
}

/// An effect channel: the effect's `src` goes over what `dest` holds, which
/// shows only as far as the effect's alpha lets it.
pub open spec fn effect_channel(dest: u8, src: u8, src_alpha: u8) -> u8 {
    src.saturating_add(transmitted(dest, src_alpha))
}

/// The index of the alpha byte of the pixel that byte `i` belongs to.
pub open spec fn alpha_index(i: int) -> int {
    i - i % 4 + 3
}

/// `dest` with the pixels of `src`, byte for byte, drawn behind it.
pub open spec fn sprite_blend(dest: Seq<u8>, src: Seq<u8>) -> Seq<u8> {
    Seq::new(dest.len(), |i: int| sprite_channel(dest[i], src[i], dest[alpha_index(i)]))
}

/// `dest` with the pixels of `src`, byte for byte, drawn over it.
pub open spec fn effect_blend(dest: Seq<u8>, src: Seq<u8>) -> Seq<u8> {
    Seq::new(dest.len(), |i: int| effect_channel(dest[i], src[i], src[alpha_index(i)]))
}

/// `value` times the transparency left by `alpha`, divided by 255 in `u16`.
pub fn transmit(value: u8, alpha: u8) -> (r: u8)
    ensures
        r == transmitted(value, alpha),
{
    let opening = (255 - alpha) as u16;
    proof {
        assert((value as u16) * opening <= 255 * 255) by (nonlinear_arith)
            requires value <= 255, opening <= 255;
    }
    let wide = (value as u16) * opening;
    assert(wide / 255 <= 255);
    (wide / 255) as u8
}

/// Draws the pixel `src` behind the pixel at `at` in `data`.
pub fn blend_sprite_pixel(data: &mut [u8], at: usize, src: [u8; 4])
    requires
        at % 4 == 0,
        at + 4 <= old(data)@.len(),
    ensures
        final(data)@.len() == old(data)@.len(),
        forall|i: int|
            0 <= i < old(data)@.len() ==> #[trigger] final(data)@[i] == if at <= i < at + 4 {
                sprite_channel(old(data)@[i], src@[i - at], old(data)@[alpha_index(i)])
            } else {
                old(data)@[i]
            },
{
    let dest_alpha = data[at + 3];
    let mut c: usize = 0;
    while c < 4
        invariant
            at % 4 == 0,
            at + 4 <= data@.len(),
            data@.len() == old(data)@.len(),
            dest_alpha == old(data)@[at + 3],
            c <= 4,
            forall|i: int|
                0 <= i < old(data)@.len() ==> #[trigger] data@[i] == if at <= i < at + c {
                    sprite_channel(old(data)@[i], src@[i - at], dest_alpha)
                } else {
                    old(data)@[i]
                },
        decreases 4 - c,
    {
        data[at + c] = data[at + c].saturating_add(transmit(src[c], dest_alpha));
        c += 1;
    }
    assert forall|i: int| at <= i < at + 4 implies alpha_index(i) == at + 3 by {}
}

/// Draws the pixel `src` over the pixel at `at` in `data`.
pub fn blend_effect_pixel(data: &mut [u8], at: usize, src: [u8; 4])
    requires
        at % 4 == 0,
        at + 4 <= old(data)@.len(),
    ensures
        final(data)@.len() == old(data)@.len(),
        forall|i: int|
            0 <= i < old(data)@.len() ==> #[trigger] final(data)@[i] == if at <= i < at + 4 {
                effect_channel(old(data)@[i], src@[i - at], src@[3])
            } else {
                old(data)@[i]
            },
{
    let src_alpha = src[3];
    let mut c: usize = 0;
    while c < 4
        invariant
            at % 4 == 0,
            at + 4 <= data@.len(),
            data@.len() == old(data)@.len(),
            src_alpha == src@[3],
            c <= 4,
            forall|i: int|
                0 <= i < old(data)@.len() ==> #[trigger] data@[i] == if at <= i < at + c {
                    effect_channel(old(data)@[i], src@[i - at], src_alpha)
                } else {
                    old(data)@[i]
                },
        decreases 4 - c,
    {
        data[at + c] = src[c].saturating_add(transmit(data[at + c], src_alpha));
        c += 1;
    }
}

/// Drawing a sprite onto a cleared buffer gives the sprite's bytes exactly:
/// the widened blend loses nothing.
pub proof fn lemma_sprite_onto_clear(src: Seq<u8>)
    requires
        src.len() % 4 == 0,
    ensures
        sprite_blend(Seq::new(src.len(), |i: int| 0u8), src) == src,
{
    let clear = Seq::new(src.len(), |i: int| 0u8);
    assert forall|i: int| 0 <= i < src.len() implies #[trigger] sprite_blend(clear, src)[i]
        == src[i] by {
        let s = src[i];
        assert(0 <= alpha_index(i) < src.len());
        assert(clear[alpha_index(i)] == 0);
        assert(((s as u16 * (255 - 0u8) as u16) / 255) as u8 == s) by (nonlinear_arith)
            requires s <= 255;
        assert(transmitted(s, 0) == s);
    }
    assert(sprite_blend(clear, src) =~= src);
}

/// An effect whose pixels are all fully opaque replaces what lies below it.
pub proof fn lemma_opaque_effect_replaces(dest: Seq<u8>, src: Seq<u8>)
    requires
        dest.len() == src.len(),
        dest.len() % 4 == 0,
        forall|i: int| 0 <= i < src.len() && i % 4 == 3 ==> #[trigger] src[i] == 255,
    ensures
        effect_blend(dest, src) == src,
{
    assert forall|i: int| 0 <= i < src.len() implies #[trigger] effect_blend(dest, src)[i]
        == src[i] by {
        let a = alpha_index(i);
        assert(a % 4 == 3 && 0 <= a < src.len());
        assert(src[a] == 255);
        let d = dest[i];
        assert((255 - 255u8) as u16 == 0);
        assert(d as u16 * 0u16 == 0) by (nonlinear_arith);
        assert(transmitted(d, 255) == 0);
    }
    assert(effect_blend(dest, src) =~= src);
}

/// A sprite drawn behind pixels that are all fully opaque leaves them as
/// they are: among sprites, the one drawn first stays in front.
pub proof fn lemma_sprite_behind_opaque(dest: Seq<u8>, src: Seq<u8>)
    requires
        dest.len() == src.len(),
        dest.len() % 4 == 0,
        forall|i: int| 0 <= i < dest.len() && i % 4 == 3 ==> #[trigger] dest[i] == 255,
    ensures
        sprite_blend(dest, src) == dest,
{
    assert forall|i: int| 0 <= i < dest.len() implies #[trigger] sprite_blend(dest, src)[i]
        == dest[i] by {
        let a = alpha_index(i);
        assert(a % 4 == 3 && 0 <= a < dest.len());
        assert(dest[a] == 255);
        let s = src[i];
        assert((255 - 255u8) as u16 == 0);
        assert(s as u16 * 0u16 == 0) by (nonlinear_arith);
        assert(transmitted(s, 255) == 0);
    }
    assert(sprite_blend(dest, src) =~= dest);
}

} // verus!
