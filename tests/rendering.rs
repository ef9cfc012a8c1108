use scanline::drawables::{Bitmap, ColorClip, ZoomedBitmap};
use scanline::pixel_formats::RgbaNoPadding;
use scanline::{
    render_line, render_over_line, render_over_segment, render_segment, render_under_line,
    render_under_segment, Effect, Position, Sprite,
};
use std::ops::Range;

type Rgba8 = RgbaNoPadding<8>;

const RED: [u8; 4] = [255, 0, 0, 255];
const BLUE: [u8; 4] = [0, 0, 255, 255];

fn at(x: isize, y: isize) -> Position {
    Position { x, y }
}

fn no_effects<'a>() -> Vec<(Position, &'a Bitmap<'a, Rgba8>)> {
    Vec::new()
}

#[test]
fn sprite_outside_segment_is_not_drawn() {
    let data = [7u8; 20];
    let sprite = Bitmap::new(5, &data);
    let mut buffer = [0u8; 40];
    render_segment::<Rgba8, _, _>(
        &None,
        0,
        0..10,
        0..10,
        &mut buffer,
        &[(at(100, 0), sprite)],
        &no_effects(),
    );
    assert_eq!(buffer, [0u8; 40]);
}

#[test]
fn sprite_on_another_line_is_not_drawn() {
    let data = [7u8; 8];
    let sprite = Bitmap::new(2, &data);
    let mut buffer = [0u8; 8];
    render_line::<Rgba8, _, _>(&None, 0, &mut buffer, &[(at(0, 5), &sprite)], &no_effects());
    assert_eq!(buffer, [0u8; 8]);
    render_line::<Rgba8, _, _>(&None, 6, &mut buffer, &[(at(0, 5), &sprite)], &no_effects());
    assert_eq!(buffer, [0u8; 8]);
    render_line::<Rgba8, _, _>(&None, 5, &mut buffer, &[(at(0, 5), &sprite)], &no_effects());
    assert_eq!(buffer, [7u8; 8]);
}

#[test]
fn opaque_sprite_onto_clear_buffer_copies_source() {
    let data = [10u8, 20, 30, 255, 40, 50, 60, 255, 1, 2, 3, 255];
    let sprite = Bitmap::new(3, &data);
    let mut buffer = [0u8; 12];
    render_line::<Rgba8, _, _>(&None, 0, &mut buffer, &[(at(0, 0), sprite)], &no_effects());
    assert_eq!(buffer, data);
}

#[test]
fn translucent_sprite_onto_clear_buffer_copies_source() {
    let data = [10u8, 20, 30, 40, 0, 0, 0, 0];
    let sprite = Bitmap::new(2, &data);
    let mut buffer = [0u8; 8];
    render_line::<Rgba8, _, _>(&None, 0, &mut buffer, &[(at(0, 0), sprite)], &no_effects());
    assert_eq!(buffer, data);
}

#[test]
fn first_opaque_sprite_stays_in_front() {
    let red = Bitmap::new(1, &RED);
    let blue = Bitmap::new(1, &BLUE);
    let mut buffer = [0u8; 4];
    render_line::<Rgba8, _, _>(
        &None,
        0,
        &mut buffer,
        &[(at(0, 0), red), (at(0, 0), blue)],
        &no_effects(),
    );
    assert_eq!(buffer, RED);
}

#[test]
fn opaque_effect_replaces_sprite() {
    let red = Bitmap::new(1, &RED);
    let blue = Bitmap::new(1, &BLUE);
    let mut buffer = [0u8; 4];
    render_line::<Rgba8, _, _>(&None, 0, &mut buffer, &[(at(0, 0), red)], &[(at(0, 0), blue)]);
    assert_eq!(buffer, BLUE);
}

#[test]
fn later_opaque_effect_covers_earlier_one() {
    let red = Bitmap::new(1, &RED);
    let blue = Bitmap::new(1, &BLUE);
    let mut buffer = [0u8; 4];
    render_over_line::<Rgba8, _>(&None, 0, &mut buffer, &[(at(0, 0), red), (at(0, 0), blue)]);
    assert_eq!(buffer, BLUE);
}

#[test]
fn zoomed_pixel_covers_its_block() {
    let pixel = [9u8, 8, 7, 255];
    let zoomed = ZoomedBitmap::new(1, &pixel, 3, 2);
    assert_eq!(Sprite::<Rgba8>::lines(&zoomed, None), 0..2);
    assert_eq!(Sprite::<Rgba8>::line_segment(&zoomed, None, 0, 0..4), 0..3);
    for line in 0..3isize {
        let mut buffer = [0u8; 16];
        render_under_line::<Rgba8, _>(&None, line, &mut buffer, &[(at(0, 0), &zoomed)]);
        let mut expected = [0u8; 16];
        if line < 2 {
            for p in 0..3 {
                expected[p * 4..p * 4 + 4].copy_from_slice(&pixel);
            }
        }
        assert_eq!(buffer, expected, "line {}", line);
    }
}

#[test]
fn zoomed_bitmap_picks_source_pixels() {
    // Two rows of two pixels; each pixel doubled across, rows tripled down.
    let data = [1u8, 0, 0, 255, 2, 0, 0, 255, 3, 0, 0, 255, 4, 0, 0, 255];
    let zoomed = ZoomedBitmap::new(2, &data, 2, 3);
    assert_eq!(Effect::<Rgba8>::lines(&zoomed, None), 0..6);
    assert_eq!(Effect::<Rgba8>::line_segment(&zoomed, None, 0, 0..4), 0..4);
    let mut buffer = [0u8; 16];
    render_over_line::<Rgba8, _>(&None, 4, &mut buffer, &[(at(0, 0), zoomed)]);
    let reds: Vec<u8> = buffer.chunks(4).map(|p| p[0]).collect();
    assert_eq!(reds, vec![3, 3, 4, 4]);
}

#[test]
fn sprite_blends_behind_translucent_destination() {
    let data = [200u8, 50, 0, 255];
    let sprite = Bitmap::new(1, &data);
    let mut buffer = [100u8, 0, 0, 128];
    render_under_line::<Rgba8, _>(&None, 0, &mut buffer, &[(at(0, 0), sprite)]);
    // 200 * 127 / 255 = 99, 50 * 127 / 255 = 24, 255 * 127 / 255 = 127
    assert_eq!(buffer, [199, 24, 0, 255]);
}

#[test]
fn effect_blends_over_destination() {
    let data = [0u8, 0, 128, 128];
    let effect = Bitmap::new(1, &data);
    let mut buffer = [100u8, 50, 0, 255];
    render_over_line::<Rgba8, _>(&None, 0, &mut buffer, &[(at(0, 0), effect)]);
    // 100 * 127 / 255 = 49, 50 * 127 / 255 = 24, 255 * 127 / 255 = 127
    assert_eq!(buffer, [49, 24, 128, 255]);
}

#[test]
fn sprite_blend_saturates() {
    let data = [100u8, 0, 0, 0];
    let sprite = Bitmap::new(1, &data);
    let mut buffer = [200u8, 0, 0, 0];
    render_under_line::<Rgba8, _>(&None, 0, &mut buffer, &[(at(0, 0), sprite)]);
    assert_eq!(buffer, [255, 0, 0, 0]);
}

#[test]
fn negative_position_is_clipped() {
    let data = [1u8, 0, 0, 255, 2, 0, 0, 255, 3, 0, 0, 255];
    let sprite = Bitmap::new(3, &data);
    let mut buffer = [0u8; 8];
    render_under_line::<Rgba8, _>(&None, 0, &mut buffer, &[(at(-2, 0), sprite)]);
    assert_eq!(buffer, [3, 0, 0, 255, 0, 0, 0, 0]);
}

#[test]
fn sprite_past_right_edge_is_clipped() {
    let data = [1u8, 0, 0, 255, 2, 0, 0, 255, 3, 0, 0, 255];
    let sprite = Bitmap::new(3, &data);
    let mut buffer = [0u8; 8];
    render_under_line::<Rgba8, _>(&None, 0, &mut buffer, &[(at(1, 0), sprite)]);
    assert_eq!(buffer, [0, 0, 0, 0, 1, 0, 0, 255]);
}

#[test]
fn segment_buffer_starts_at_segment() {
    let data = [5u8, 6, 7, 255];
    let sprite = Bitmap::new(1, &data);
    let mut buffer = [0u8; 8];
    render_under_segment::<Rgba8, _>(&None, 0, 0..10, 2..4, &mut buffer, &[(at(3, 0), sprite)]);
    assert_eq!(buffer, [0, 0, 0, 0, 5, 6, 7, 255]);
}

#[test]
fn effect_on_segment() {
    let data = [5u8, 6, 7, 255, 8, 9, 10, 255];
    let effect = Bitmap::new(2, &data);
    let mut buffer = [1u8; 8];
    render_over_segment::<Rgba8, _>(&None, 0, 0..10, 5..7, &mut buffer, &[(at(6, 0), effect)]);
    assert_eq!(buffer, [1, 1, 1, 1, 5, 6, 7, 255]);
}

#[test]
fn second_row_of_bitmap() {
    let data = [1u8, 1, 1, 255, 2, 2, 2, 255];
    let sprite = Bitmap::new(1, &data);
    let mut buffer = [0u8; 4];
    render_under_line::<Rgba8, _>(&None, 3, &mut buffer, &[(at(0, 2), sprite)]);
    assert_eq!(buffer, [2, 2, 2, 255]);
}

#[test]
fn color_clip_fills_its_segment() {
    let clip = ColorClip::<Rgba8, _, _, _>::new(
        |_all: Option<Range<isize>>| 0..1,
        |_all: Option<Range<isize>>, _line: isize, _span: Range<isize>| 1..3,
        [10u8, 20, 30, 255],
    );
    let mut buffer = [0u8; 16];
    render_under_line::<Rgba8, _>(&None, 0, &mut buffer, &[(at(0, 0), &clip)]);
    assert_eq!(buffer, [0, 0, 0, 0, 10, 20, 30, 255, 10, 20, 30, 255, 0, 0, 0, 0]);
    let mut other_line = [0u8; 16];
    render_under_line::<Rgba8, _>(&None, 1, &mut other_line, &[(at(0, 0), &clip)]);
    assert_eq!(other_line, [0u8; 16]);
}

#[test]
fn color_clip_sees_hints_in_its_own_coordinates() {
    let clip = ColorClip::<Rgba8, _, _, _>::new(
        |all: Option<Range<isize>>| all.unwrap_or(0..0),
        |_all: Option<Range<isize>>, _line: isize, span: Range<isize>| span.start..span.start + 1,
        [0u8, 0, 200, 255],
    );
    // Placed at (2, 1): the line hint 0..4 becomes -1..3, line 2 becomes 1,
    // and the line span 0..3 becomes -2..1, so column -2 + 2 = 0 is covered.
    let mut buffer = [0u8; 12];
    render_over_line::<Rgba8, _>(&Some(0..4), 2, &mut buffer, &[(at(2, 1), &clip)]);
    assert_eq!(buffer, [0, 0, 200, 255, 0, 0, 0, 0, 0, 0, 0, 0]);
}

#[test]
fn color_clip_as_effect_over_sprite() {
    let sprite = Bitmap::new(1, &RED);
    let shade = ColorClip::<Rgba8, _, _, _>::new(
        |_all: Option<Range<isize>>| 0..1,
        |_all: Option<Range<isize>>, _line: isize, _span: Range<isize>| 0..1,
        [0u8, 0, 0, 128],
    );
    let mut buffer = [0u8; 4];
    render_line::<Rgba8, _, _>(&None, 0, &mut buffer, &[(at(0, 0), sprite)], &[(at(0, 0), &shade)]);
    // 255 * 127 / 255 = 127 of the red shows; alpha 128 + 127.
    assert_eq!(buffer, [127, 0, 0, 255]);
}

#[test]
fn sprites_are_drawn_before_effects() {
    let green = [0u8, 255, 0, 255];
    let sprite = Bitmap::new(1, &green);
    let effect = Bitmap::new(1, &BLUE);
    let mut buffer = [0u8; 4];
    // Even though the effect is opaque, the sprite is drawn first and
    // covered, not drawn behind it.
    render_line::<Rgba8, _, _>(&None, 0, &mut buffer, &[(at(0, 0), sprite)], &[(at(0, 0), effect)]);
    assert_eq!(buffer, BLUE);
}

#[test]
fn empty_lists_leave_buffer_alone() {
    let mut buffer = [3u8; 8];
    render_line::<Rgba8, Bitmap<Rgba8>, Bitmap<Rgba8>>(&None, 0, &mut buffer, &[], &[]);
    assert_eq!(buffer, [3u8; 8]);
}

#[test]
fn empty_buffer_renders_nothing() {
    let data = [1u8, 2, 3, 255];
    let sprite = Bitmap::new(1, &data);
    let mut buffer: [u8; 0] = [];
    render_line::<Rgba8, _, _>(&None, 0, &mut buffer, &[(at(0, 0), sprite)], &no_effects());
    assert_eq!(buffer.len(), 0);
}

#[test]
fn partial_trailing_bytes_are_not_a_pixel() {
    let data = [1u8, 2, 3, 255];
    let sprite = Bitmap::new(1, &data);
    let mut buffer = [0u8; 6];
    render_under_line::<Rgba8, _>(&None, 0, &mut buffer, &[(at(1, 0), sprite)]);
    assert_eq!(buffer, [0u8; 6]);
}

#[test]
fn empty_segment_draws_nothing() {
    let data = [9u8; 8];
    let sprite = Bitmap::new(2, &data);
    let mut buffer = [1u8; 8];
    render_under_segment::<Rgba8, _>(&None, 0, 0..2, 1..1, &mut buffer, &[(at(0, 0), sprite)]);
    assert_eq!(buffer, [1u8; 8]);
}
