use devola::gfx::{
    color_to_rgb15, rgb15_to_color, Color, Palette, Sprite, SpriteProperties, SpriteSize, Tile,
    Tilemap, VRAMDeserialize, VRAMModel,
};
use devola::mmio::{
    BG_SIZE, PALETTE_COUNT, PALETTE_LENGTH, SCREEN_WIDTH, SPRITE_COUNT, TILEMAP_COUNT,
    TILEMAP_LENGTH, TILE_SIZE,
};
use devola::render::{render_frame, render_sprite, FRAME_BYTES};
use devola::util::{break_u16, build_u16};

const BLACK: Color = Color { r: 0, g: 0, b: 0 };
const RED: Color = Color { r: 255, g: 0, b: 0 };
const GREEN: Color = Color { r: 0, g: 255, b: 0 };
const BLUE: Color = Color { r: 0, g: 0, b: 255 };

#[test]
fn test_sprite_deserialize() {
    let data: [u8; 5] = [0b0_10_001_01, 128, 32, 0, 0];
    assert_eq!(
        Sprite::deserialize(&data),
        Sprite {
            properties: SpriteProperties {
                tilemap_index: 0,
                size: SpriteSize::X32,
                palette_index: 1,
                priority: 1,
            },
            location: (128, 32),
            gfx_start: 0,
            info: 0,
        }
    )
}

fn marked_vram() -> VRAMModel {
    let mut vram = VRAMModel::empty_vram();
    vram.palettes[0].colors[0] = BLACK;
    vram.palettes[0].colors[1] = RED;
    vram.palettes[0].colors[2] = GREEN;
    vram.palettes[0].colors[3] = BLUE;
    for i in 4..PALETTE_LENGTH {
        vram.palettes[0].colors[i] = RED;
    }
    let pixels: Vec<u8> = vec![
        1, 1, 1, 1, 1, 1, 1, 1, // !!!!!!!!
        0, 1, 2, 2, 2, 2, 1, 0, // _!@@@@!_
        0, 0, 1, 3, 3, 1, 0, 0, // __!##!__
        0, 0, 0, 2, 2, 0, 0, 0, // ___@@___
        0, 0, 0, 2, 2, 0, 0, 0, // ___@@___
        0, 0, 1, 3, 3, 1, 0, 0, // __!##!__
        0, 1, 2, 2, 2, 2, 1, 0, // _!@@@@!_
        1, 1, 1, 1, 1, 1, 1, 1, // !!!!!!!!
    ];
    vram.tilemaps[0].tiles[0] = Tile { pixels };
    vram.sprites[0] = Sprite {
        properties: SpriteProperties {
            tilemap_index: 0,
            size: SpriteSize::X8,
            palette_index: 0,
            priority: 0,
        },
        location: (128, 128),
        gfx_start: 0,
        info: 0,
    };
    vram
}

#[test]
fn test_render_sprite() {
    let fake_vram = marked_vram();
    let mut sprite = fake_vram.sprites[0];
    sprite.info = 1;
    let mut frame = vec![0u8; FRAME_BYTES];
    render_sprite(&fake_vram, &sprite, &mut frame);
    assert_eq!(pixel_at(&frame, 128, 128), (255, 0, 0, 255));
}

fn pixel_at(frame: &[u8], x: usize, y: usize) -> (u8, u8, u8, u8) {
    let base = 4 * (y * SCREEN_WIDTH + x);
    (frame[base], frame[base + 1], frame[base + 2], frame[base + 3])
}

#[test]
fn render_composites_sprites_over_black() {
    let mut vram = marked_vram();
    vram.enable_sprite(0);
    let mut frame = vec![7u8; FRAME_BYTES];
    render_frame(&vram, &mut frame);
    // background: black, full alpha
    assert_eq!(pixel_at(&frame, 0, 0), (0, 0, 0, 255));
    // the sprite's top-left pixel holds palette entry 1 (red)
    assert_eq!(pixel_at(&frame, 128, 128), (255, 0, 0, 255));
    // one pixel inside: palette entry 2 (green) at (2, 1) of the tile
    assert_eq!(pixel_at(&frame, 130, 129), (0, 255, 0, 255));
    // palette entry 3 (blue) at (3, 2)
    assert_eq!(pixel_at(&frame, 131, 130), (0, 0, 255, 255));
    // just outside the sprite: background
    assert_eq!(pixel_at(&frame, 127, 128), (0, 0, 0, 255));
    assert_eq!(pixel_at(&frame, 136, 128), (0, 0, 0, 255));
}

#[test]
fn later_sprites_overwrite_earlier_ones() {
    let mut vram = marked_vram();
    // sprite 1 sits on the same spot but paints palette entry 2 (green)
    let mut pixels = vec![2u8; TILE_SIZE];
    pixels[0] = 3; // except its very first pixel, which is blue
    vram.tilemaps[0].tiles[1] = Tile { pixels };
    vram.sprites[1] = Sprite {
        properties: SpriteProperties {
            tilemap_index: 0,
            size: SpriteSize::X8,
            palette_index: 0,
            priority: 0,
        },
        location: (128, 128),
        gfx_start: 1,
        info: 0,
    };
    vram.enable_sprite(0);
    vram.enable_sprite(1);
    let mut frame = vec![0u8; FRAME_BYTES];
    render_frame(&vram, &mut frame);
    assert_eq!(pixel_at(&frame, 128, 128), (0, 0, 255, 255));
    assert_eq!(pixel_at(&frame, 129, 128), (0, 255, 0, 255));
}

#[test]
fn disabled_sprites_are_not_drawn() {
    let vram = marked_vram();
    let mut frame = vec![0u8; FRAME_BYTES];
    render_frame(&vram, &mut frame);
    assert_eq!(pixel_at(&frame, 128, 128), (0, 0, 0, 255));
}

#[test]
fn sprites_clip_at_the_screen_edge() {
    let mut vram = marked_vram();
    vram.sprites[0].location = (252, 220);
    vram.enable_sprite(0);
    let mut frame = vec![0u8; FRAME_BYTES];
    render_frame(&vram, &mut frame);
    // the visible corner is painted, and nothing wraps to the next row
    assert_eq!(pixel_at(&frame, 252, 220), (255, 0, 0, 255));
    assert_eq!(pixel_at(&frame, 255, 223), (0, 255, 0, 255));
    assert_eq!(pixel_at(&frame, 0, 221), (0, 0, 0, 255));
}

#[test]
fn enable_disable_round_trip_keeps_reserved_bits() {
    let mut vram = VRAMModel::empty_vram();
    vram.sprites[5].info = 0b1010_1010;
    vram.enable_sprite(5);
    assert_eq!(vram.sprites[5].info, 0b1010_1011);
    vram.disable_sprite(5);
    assert_eq!(vram.sprites[5].info, 0b1010_1010);
}

#[test]
fn color_word_round_trip() {
    assert_eq!(color_to_rgb15(rgb15_to_color(0x1234)), 0x1234);
    assert_eq!(color_to_rgb15(rgb15_to_color(0x7FFF)), 0x7FFF);
    assert_eq!(color_to_rgb15(rgb15_to_color(0x0000)), 0x0000);
    assert_eq!(rgb15_to_color(0x7FFF), Color { r: 248, g: 248, b: 248 });
    assert_eq!(rgb15_to_color(0b0_00001_00010_00011), Color { r: 8, g: 16, b: 24 });
    // encoding drops the low three bits of each channel by design
    assert_eq!(color_to_rgb15(Color { r: 255, g: 7, b: 16 }), 0b0_11111_00000_00010);
}

#[test]
fn property_byte_round_trip() {
    for value in 0..=255u8 {
        let decoded = SpriteProperties::decode(value);
        assert_eq!(decoded.encode(), value);
    }
    let decoded = SpriteProperties::decode(0b1_01_110_10);
    assert_eq!(decoded.tilemap_index, 1);
    assert_eq!(decoded.size, SpriteSize::X16);
    assert_eq!(decoded.palette_index, 6);
    assert_eq!(decoded.priority, 2);
}

#[test]
fn word_round_trip_is_big_endian() {
    assert_eq!(break_u16(0xABCD), (0xAB, 0xCD));
    assert_eq!(build_u16(0xAB, 0xCD), 0xABCD);
    for word in [0u16, 1, 0x00FF, 0x0F00, 0x8000, 0xFFFF] {
        let (msb, lsb) = break_u16(word);
        assert_eq!(build_u16(msb, lsb), word);
    }
}

#[test]
fn palette_deserializes_big_endian_words() {
    let mut data = vec![0u8; 32];
    data[0] = 0x7F;
    data[1] = 0xFF;
    data[2] = 0b0_00001_00;
    data[3] = 0b010_00011;
    let palette = Palette::deserialize(&data);
    assert_eq!(palette.colors.len(), PALETTE_LENGTH);
    assert_eq!(palette.colors[0], Color { r: 248, g: 248, b: 248 });
    assert_eq!(palette.colors[1], Color { r: 8, g: 16, b: 24 });
    assert_eq!(palette.colors[2], BLACK);
}

#[test]
fn tilemap_deserializes_by_tile() {
    let mut data = vec![0u8; devola::mmio::TILEMAP_SIZE];
    data[5 * TILE_SIZE + 7] = 9;
    let tilemap = Tilemap::deserialize(&data);
    assert_eq!(tilemap.tiles.len(), TILEMAP_LENGTH * TILEMAP_LENGTH);
    assert_eq!(tilemap.tiles[5].pixels[7], 9);
    assert_eq!(tilemap.tiles[5].pixels[8], 0);
    assert_eq!(tilemap.tiles[4].pixels[7], 0);
}

#[test]
fn sizes_and_pitches() {
    assert_eq!(SpriteSize::pitch(SpriteSize::X8), 8);
    assert_eq!(SpriteSize::pitch(SpriteSize::X64), 64);
    assert_eq!(SpriteSize::size(SpriteSize::X8), 64);
    assert_eq!(SpriteSize::size(SpriteSize::X16), 256);
    assert_eq!(SpriteSize::size(SpriteSize::X32), 1024);
    assert_eq!(SpriteSize::size(SpriteSize::X64), 4096);
}

#[test]
fn empty_vram_is_fully_populated() {
    let vram = VRAMModel::empty_vram();
    assert_eq!(vram.palettes.len(), PALETTE_COUNT);
    assert_eq!(vram.tilemaps.len(), TILEMAP_COUNT);
    assert_eq!(vram.backgrounds.len(), devola::mmio::BG_COUNT);
    assert_eq!(vram.sprites.len(), SPRITE_COUNT);
    assert_eq!(vram.backgrounds[0].tiles.len(), BG_SIZE);
    assert!(vram.sprites.iter().all(|s| s.info == 0));
}
