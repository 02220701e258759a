//! The rasterizer: reads the typed VRAM model and paints an RGBA
//! framebuffer of the fixed screen size. Sprites are composited in index
//! order, later ones over earlier ones; pixels outside the screen are
//! clipped.

use vstd::prelude::*;
use crate::gfx::{Color, Sprite, VRAMModel, spec_sprite_pitch};
use crate::mmio::{SCREEN_HEIGHT, SCREEN_WIDTH, SPRITE_COUNT, TILE_LENGTH};

verus! {

/// Bytes of the framebuffer: 4 per pixel, row-major.
pub const FRAME_BYTES: usize = SCREEN_WIDTH * SCREEN_HEIGHT * 4;

/// The x coordinate of the pixel a framebuffer byte belongs to.
pub open spec fn spec_byte_x(b: int) -> int {
    (b / 4) % (SCREEN_WIDTH as int)
}

/// The y coordinate of the pixel a framebuffer byte belongs to.
pub open spec fn spec_byte_y(b: int) -> int {
    (b / 4) / (SCREEN_WIDTH as int)
}

/// The channel (R, G, B, A as 0..4) a framebuffer byte holds.
pub open spec fn spec_byte_channel(b: int) -> int {
    b % 4
}

/// The byte a channel of a color yields: R, G, B, or the constant alpha
/// 0xFF.
pub open spec fn spec_channel_byte(c: Color, channel: int) -> u8 {
    if channel == 0 {
        c.r
    } else if channel == 1 {
        c.g
    } else if channel == 2 {
        c.b
    } else {
        0xFF
    }
}

/// The number of tiles a sprite is wide.
pub open spec fn spec_tile_pitch(s: Sprite) -> int {
    spec_sprite_pitch(s.properties.size) / (TILE_LENGTH as int)
}

/// Whether a sprite is composited at all: its enable bit is set and its
/// tile run stays inside its tilemap.
pub open spec fn spec_drawn(s: Sprite) -> bool {
    &&& s.info & 1 == 1
    &&& s.gfx_start as int + spec_tile_pitch(s) * spec_tile_pitch(s) <= 256
}

/// Whether a sprite covers an (on-screen) pixel.
pub open spec fn spec_covers(s: Sprite, x: int, y: int) -> bool {
    &&& 0 <= x < SCREEN_WIDTH as int
    &&& 0 <= y < SCREEN_HEIGHT as int
    &&& s.location.0 <= x < s.location.0 + spec_sprite_pitch(s.properties.size)
    &&& s.location.1 <= y < s.location.1 + spec_sprite_pitch(s.properties.size)
}

/// The color a sprite paints at a pixel it covers: the tile at the
/// sprite-relative position, its palette index looked up in the sprite's
/// palette (only the low four bits of a stored index select a color).
pub open spec fn spec_sprite_color(vram: VRAMModel, s: Sprite, x: int, y: int) -> Color {
    let dx = x - s.location.0;
    let dy = y - s.location.1;
    let tp = spec_tile_pitch(s);
    let tile_idx = s.gfx_start as int + (dy / 8) * tp + dx / 8;
    let pix = vram.tilemaps@[s.properties.tilemap_index as int].tiles@[tile_idx].pixels@[(dy % 8)
        * 8 + dx % 8];
    vram.palettes@[s.properties.palette_index as int].colors@[(pix & 0xF) as int]
}

/// The color of a pixel after compositing the first `n` sprites: the
/// last drawn sprite covering it wins; black where none does.
pub open spec fn spec_top_color(vram: VRAMModel, x: int, y: int, n: int) -> Color
    decreases n,
{
    if n <= 0 {
        Color { r: 0, g: 0, b: 0 }
    } else {
        let s = vram.sprites@[n - 1];
        if spec_drawn(s) && spec_covers(s, x, y) {
            spec_sprite_color(vram, s, x, y)
        } else {
            spec_top_color(vram, x, y, n - 1)
        }
    }
}

/// The color of a pixel of the finished frame.
pub open spec fn spec_pixel(vram: VRAMModel, x: int, y: int) -> Color {
    spec_top_color(vram, x, y, SPRITE_COUNT as int)
}

/// Paints one sprite into the framebuffer: every pixel the sprite covers
/// (clipped to the screen) gets the sprite's color there with full alpha;
/// every other byte is untouched.
#[verifier::spinoff_prover]
#[verifier::rlimit(100)]
pub fn render_sprite(vram: &VRAMModel, sprite: &Sprite, frame: &mut Vec<u8>)
    requires
        vram.wf(),
        sprite.properties.wf(),
        spec_drawn(*sprite),
        old(frame)@.len() == FRAME_BYTES,
    ensures
        final(frame)@.len() == FRAME_BYTES,
        forall|b: int|
            0 <= b < FRAME_BYTES ==> final(frame)@[b] == (if spec_covers(
                *sprite,
                spec_byte_x(b),
                spec_byte_y(b),
            ) {
                spec_channel_byte(
                    spec_sprite_color(*vram, *sprite, spec_byte_x(b), spec_byte_y(b)),
                    spec_byte_channel(b),
                )
            } else {
                old(frame)@[b]
            }),
{
    let tp: usize = match sprite.properties.size {
        crate::gfx::SpriteSize::X8 => 1,
        crate::gfx::SpriteSize::X16 => 2,
        crate::gfx::SpriteSize::X32 => 4,
        crate::gfx::SpriteSize::X64 => 8,
    };
    let pitch: usize = 8 * tp;
    let top_x = sprite.location.0 as usize;
    let top_y = sprite.location.1 as usize;
    let mut dy: usize = 0;
    while dy < pitch
        invariant
            frame@.len() == FRAME_BYTES,
            vram.wf(),
            sprite.properties.wf(),
            spec_drawn(*sprite),
            tp == spec_tile_pitch(*sprite),
            pitch == spec_sprite_pitch(sprite.properties.size),
            top_x == sprite.location.0 as int,
            top_y == sprite.location.1 as int,
            dy <= pitch,
            forall|b: int|
                0 <= b < FRAME_BYTES ==> frame@[b] == (if spec_covers(
                    *sprite,
                    spec_byte_x(b),
                    spec_byte_y(b),
                ) && spec_byte_y(b) < top_y + dy {
                    spec_channel_byte(
                        spec_sprite_color(*vram, *sprite, spec_byte_x(b), spec_byte_y(b)),
                        spec_byte_channel(b),
                    )
                } else {
                    old(frame)@[b]
                }),
        decreases pitch - dy,
    {
        let y = top_y + dy;
        if y < SCREEN_HEIGHT {
            let mut dx: usize = 0;
            while dx < pitch
                invariant
                    frame@.len() == FRAME_BYTES,
                    vram.wf(),
                    sprite.properties.wf(),
                    spec_drawn(*sprite),
                    tp == spec_tile_pitch(*sprite),
                    pitch == spec_sprite_pitch(sprite.properties.size),
                    top_x == sprite.location.0 as int,
                    top_y == sprite.location.1 as int,
                    dy < pitch,
                    y == top_y + dy,
                    y < SCREEN_HEIGHT,
                    dx <= pitch,
                    forall|b: int|
                        0 <= b < FRAME_BYTES ==> frame@[b] == (if spec_covers(
                            *sprite,
                            spec_byte_x(b),
                            spec_byte_y(b),
                        ) && (spec_byte_y(b) < top_y + dy || (spec_byte_y(b) == top_y + dy
                            && spec_byte_x(b) < top_x + dx)) {
                            spec_channel_byte(
                                spec_sprite_color(
                                    *vram,
                                    *sprite,
                                    spec_byte_x(b),
                                    spec_byte_y(b),
                                ),
                                spec_byte_channel(b),
                            )
                        } else {
                            old(frame)@[b]
                        }),
                decreases pitch - dx,
            {
                let x = top_x + dx;
                if x < SCREEN_WIDTH {
                    proof {
                        assert((dy as int / 8) * tp + dx as int / 8 < tp * tp && 0 <= (dy as int
                            / 8) * tp + dx as int / 8) by (nonlinear_arith)
                            requires
                                0 <= dx < 8 * tp,
                                0 <= dy < 8 * tp,
                                1 <= tp,
                        ;
                    }
                    let tile_idx = sprite.gfx_start as usize + (dy / 8) * tp + dx / 8;
                    let within = (dy % 8) * 8 + dx % 8;
                    let tilemap = &vram.tilemaps[sprite.properties.tilemap_index as usize];
                    let pix = tilemap.tiles[tile_idx].pixels[within];
                    let palette = &vram.palettes[sprite.properties.palette_index as usize];
                    proof {
                        assert((pix & 0xF) < 16) by (bit_vector);
                    }
                    let color = palette.colors[(pix & 0xF) as usize];
                    let base = 4 * (y * SCREEN_WIDTH + x);
                    let ghost frame0 = frame@;
                    frame[base] = color.r;
                    frame[base + 1] = color.g;
                    frame[base + 2] = color.b;
                    frame[base + 3] = 0xFF;
                    proof {
                        let c = spec_sprite_color(*vram, *sprite, x as int, y as int);
                        assert(c == color);
                        assert forall|b: int| 0 <= b < FRAME_BYTES implies frame@[b] == (
                        if spec_covers(*sprite, spec_byte_x(b), spec_byte_y(b)) && (spec_byte_y(b)
                            < top_y + dy || (spec_byte_y(b) == top_y + dy && spec_byte_x(b) < top_x
                            + dx + 1)) {
                            spec_channel_byte(
                                spec_sprite_color(
                                    *vram,
                                    *sprite,
                                    spec_byte_x(b),
                                    spec_byte_y(b),
                                ),
                                spec_byte_channel(b),
                            )
                        } else {
                            old(frame)@[b]
                        }) by {
                            if base as int <= b <= base as int + 3 {
                                assert(b / 4 == y * SCREEN_WIDTH as int + x);
                                assert(spec_byte_x(b) == x as int);
                                assert(spec_byte_y(b) == y as int);
                                assert(spec_byte_channel(b) == b - 4 * (y * SCREEN_WIDTH as int
                                    + x));
                            } else {
                                assert(frame@[b] == frame0[b]);
                                assert(!(spec_byte_x(b) == x as int && spec_byte_y(b)
                                    == y as int)) by {
                                    if spec_byte_x(b) == x as int && spec_byte_y(b) == y as int {
                                        assert(b / 4 == y * SCREEN_WIDTH as int + x);
                                        assert(base as int <= b <= base as int + 3);
                                    }
                                };
                            }
                        };
                    }
                }
                dx = dx + 1;
            }
        }
        dy = dy + 1;
    }
}

/// Rasterizes the VRAM model into the framebuffer: every pixel is first
/// painted black with full alpha, then the sprites whose enable bit is
/// set (and whose tile run fits its tilemap) are composited in index
/// order, later sprites over earlier ones.
pub fn render_frame(vram: &VRAMModel, frame: &mut Vec<u8>)
    requires
        vram.wf(),
        old(frame)@.len() == FRAME_BYTES,
    ensures
        final(frame)@.len() == FRAME_BYTES,
        forall|b: int|
            0 <= b < FRAME_BYTES ==> final(frame)@[b] == spec_channel_byte(
                spec_pixel(*vram, spec_byte_x(b), spec_byte_y(b)),
                spec_byte_channel(b),
            ),
{
    let mut p: usize = 0;
    while p < SCREEN_WIDTH * SCREEN_HEIGHT
        invariant
            frame@.len() == FRAME_BYTES,
            p <= SCREEN_WIDTH * SCREEN_HEIGHT,
            forall|b: int|
                0 <= b < 4 * p ==> frame@[b] == spec_channel_byte(
                    Color { r: 0, g: 0, b: 0 },
                    spec_byte_channel(b),
                ),
        decreases SCREEN_WIDTH * SCREEN_HEIGHT - p,
    {
        let base = 4 * p;
        frame[base] = 0;
        frame[base + 1] = 0;
        frame[base + 2] = 0;
        frame[base + 3] = 0xFF;
        p = p + 1;
    }
    let mut i: usize = 0;
    while i < SPRITE_COUNT
        invariant
            frame@.len() == FRAME_BYTES,
            vram.wf(),
            i <= SPRITE_COUNT,
            forall|b: int|
                0 <= b < FRAME_BYTES ==> frame@[b] == spec_channel_byte(
                    spec_top_color(*vram, spec_byte_x(b), spec_byte_y(b), i as int),
                    spec_byte_channel(b),
                ),
        decreases SPRITE_COUNT - i,
    {
        let sprite = vram.sprites[i];
        let tp: usize = match sprite.properties.size {
            crate::gfx::SpriteSize::X8 => 1,
            crate::gfx::SpriteSize::X16 => 2,
            crate::gfx::SpriteSize::X32 => 4,
            crate::gfx::SpriteSize::X64 => 8,
        };
        if sprite.enabled() && sprite.gfx_start as usize + tp * tp <= 256 {
            let ghost frame0 = frame@;
            render_sprite(vram, &sprite, frame);
            proof {
                assert forall|b: int| 0 <= b < FRAME_BYTES implies frame@[b]
                    == spec_channel_byte(
                    spec_top_color(*vram, spec_byte_x(b), spec_byte_y(b), i + 1),
                    spec_byte_channel(b),
                ) by {
                    assert(spec_drawn(sprite));
                };
            }
        } else {
            proof {
                assert(!spec_drawn(sprite));
            }
        }
        i = i + 1;
    }
    proof {
        assert forall|b: int| 0 <= b < FRAME_BYTES implies spec_top_color(
            *vram,
            spec_byte_x(b),
            spec_byte_y(b),
            SPRITE_COUNT as int,
        ) == spec_pixel(*vram, spec_byte_x(b), spec_byte_y(b)) by {};
    }
}

} // verus!
