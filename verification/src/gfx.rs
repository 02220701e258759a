//! The typed view over VRAM: colors, palettes, tiles, tilemaps,
//! backgrounds and sprites, with the codecs that read them out of raw
//! bytes, and the VRAM model the rasterizer consumes.

use vstd::prelude::*;
use crate::mmio::{
    BG_SIZE, BG_START, PALETTE_LENGTH, PALETTE_SIZE, PALETTE_START, SPRITE_COUNT, SPRITE_SIZE,
    SPRITE_START, TILEMAP_LENGTH, TILEMAP_SIZE, TILEMAP_START, TILE_SIZE,
};
use crate::stdlib::memgetn;
use crate::util::spec_word;
use crate::vm::{Devola, MEMORY_SIZE, same_program};

verus! {

/// An 8-bit-per-channel RGB color.
#[derive(Debug, Clone, Copy, PartialEq, Eq, Structural)]
pub struct Color {
    pub r: u8,
    pub g: u8,
    pub b: u8,
}

/// The color a 15-bit word encodes: `0rrrrr gggggb bbbb`, each 5-bit
/// channel scaled to 8 bits by multiplying by 8.
pub open spec fn spec_rgb15_to_color(color_word: u16) -> Color {
    Color {
        r: (8 * (color_word >> 10)) as u8,
        g: (8 * ((color_word >> 5) & 0x1F)) as u8,
        b: (8 * (color_word & 0x1F)) as u8,
    }
}

/// The 15-bit word a color encodes to: each channel divided by 8.
pub open spec fn spec_color_to_rgb15(color: Color) -> u16 {
    ((color.r as u16 / 8) << 10) | ((color.g as u16 / 8) << 5) | (color.b as u16 / 8)
}

/// Decodes a 15-bit color word (top bit zero) into a color.
pub fn rgb15_to_color(color_word: u16) -> (r: Color)
    requires
        color_word < 0x8000,
    ensures
        r == spec_rgb15_to_color(color_word),
{
    proof {
        assert(color_word < 0x8000 ==> (color_word >> 10) < 32 && ((color_word >> 5) & 0x1F) < 32
            && (color_word & 0x1F) < 32) by (bit_vector);
        assert(color_word < 0x8000 ==> (8 * (color_word >> 10)) as u8 == 8 * (color_word >> 10)
            && (8 * ((color_word >> 5) & 0x1F)) as u8 == 8 * ((color_word >> 5) & 0x1F) && (8 * (
        color_word & 0x1F)) as u8 == 8 * (color_word & 0x1F)) by (bit_vector);
    }
    Color {
        r: (8 * (color_word >> 10)) as u8,
        g: (8 * ((color_word >> 5) & 0x1F)) as u8,
        b: (8 * (color_word & 0x1F)) as u8,
    }
}

/// Encodes a color into a 15-bit word; the low three bits of each channel
/// are lost by design.
pub fn color_to_rgb15(color: Color) -> (r: u16)
    ensures
        r == spec_color_to_rgb15(color),
        r < 0x8000,
{
    let r16 = color.r as u16 / 8;
    let g16 = color.g as u16 / 8;
    let b16 = color.b as u16 / 8;
    proof {
        let cr = color.r;
        let cg = color.g;
        let cb = color.b;
        assert(((cr as u16 / 8) << 10 | ((cg as u16 / 8) << 5) | (cb as u16 / 8)) < 0x8000)
            by (bit_vector);
        assert((cr as u16 / 8) << 10 <= 0x7C00) by (bit_vector);
        assert((cg as u16 / 8) << 5 <= 0x03E0) by (bit_vector);
    }
    (r16 << 10) | (g16 << 5) | b16
}

/// Encoding the decoding of any 15-bit word gives the word back: the
/// round trip through `Color` loses nothing of a 15-bit color.
pub proof fn lemma_rgb15_roundtrip(w: u16)
    requires
        w < 0x8000,
    ensures
        spec_color_to_rgb15(spec_rgb15_to_color(w)) == w,
{
    assert(w < 0x8000 ==> (((((8 * (w >> 10)) as u8) as u16 / 8) << 10) | ((((8 * ((w >> 5)
        & 0x1F)) as u8) as u16 / 8) << 5) | (((8 * (w & 0x1F)) as u8) as u16 / 8)) == w)
        by (bit_vector);
}

/// The four sprite footprints: 8, 16, 32 or 64 pixels square.
#[derive(Debug, PartialEq, Eq, Structural, Copy, Clone)]
pub enum SpriteSize {
    X8,
    X16,
    X32,
    X64,
}

/// The two-bit code of a sprite size.
pub open spec fn spec_size_code(s: SpriteSize) -> u8 {
    match s {
        SpriteSize::X8 => 0,
        SpriteSize::X16 => 1,
        SpriteSize::X32 => 2,
        SpriteSize::X64 => 3,
    }
}

/// The sprite size a two-bit code names.
pub open spec fn spec_size_of_code(code: u8) -> SpriteSize {
    if code == 0 {
        SpriteSize::X8
    } else if code == 1 {
        SpriteSize::X16
    } else if code == 2 {
        SpriteSize::X32
    } else {
        SpriteSize::X64
    }
}

/// The sprite size a size byte names (codes past 3 read as the largest,
/// as a two-bit field never produces them).
pub fn size_from_byte(value: u8) -> (r: SpriteSize)
    ensures
        r == spec_size_of_code(value),
{
    if value == 0 {
        SpriteSize::X8
    } else if value == 1 {
        SpriteSize::X16
    } else if value == 2 {
        SpriteSize::X32
    } else {
        SpriteSize::X64
    }
}

impl SpriteSize {
    /// The number of pixels a sprite of this size covers.
    pub fn size(sprite_size: SpriteSize) -> (r: usize)
        ensures
            r == spec_sprite_pitch(sprite_size) * spec_sprite_pitch(sprite_size),
    {
        match sprite_size {
            SpriteSize::X8 => 64,
            SpriteSize::X16 => 256,
            SpriteSize::X32 => 1024,
            SpriteSize::X64 => 4096,
        }
    }

    /// The width in pixels of a sprite of this size.
    pub fn pitch(sprite_size: SpriteSize) -> (r: u32)
        ensures
            r == spec_sprite_pitch(sprite_size),
    {
        match sprite_size {
            SpriteSize::X8 => 8,
            SpriteSize::X16 => 16,
            SpriteSize::X32 => 32,
            SpriteSize::X64 => 64,
        }
    }
}

/// The width in pixels of a sprite of a size.
pub open spec fn spec_sprite_pitch(s: SpriteSize) -> int {
    match s {
        SpriteSize::X8 => 8,
        SpriteSize::X16 => 16,
        SpriteSize::X32 => 32,
        SpriteSize::X64 => 64,
    }
}

/// The decoded sprite-property byte:
/// `[tilemap(1) | size(2) | palette(3) | priority(2)]` from MSB to LSB.
#[derive(Debug, PartialEq, Eq, Structural, Copy, Clone)]
pub struct SpriteProperties {
    pub tilemap_index: u8,
    pub size: SpriteSize,
    pub palette_index: u8,
    pub priority: u8,
}

impl SpriteProperties {
    /// The fields fit their bit widths.
    pub open spec fn wf(&self) -> bool {
        &&& self.tilemap_index < 2
        &&& self.palette_index < 8
        &&& self.priority < 4
    }

    /// Decodes a property byte.
    pub fn decode(value: u8) -> (r: SpriteProperties)
        ensures
            r == spec_decode_properties(value),
            r.wf(),
    {
        proof {
            assert(value >> 7 < 2 && ((value >> 2) & 0b111) < 8 && (value & 0b11) < 4)
                by (bit_vector);
        }
        SpriteProperties {
            tilemap_index: value >> 7,
            size: size_from_byte((value >> 5) & 0b11),
            palette_index: (value >> 2) & 0b111,
            priority: value & 0b11,
        }
    }

    /// Encodes the properties back into a byte.
    pub fn encode(&self) -> (r: u8)
        requires
            self.wf(),
        ensures
            r == spec_encode_properties(*self),
    {
        let code: u8 = match self.size {
            SpriteSize::X8 => 0,
            SpriteSize::X16 => 1,
            SpriteSize::X32 => 2,
            SpriteSize::X64 => 3,
        };
        (self.tilemap_index << 7) | (code << 5) | (self.palette_index << 2) | self.priority
    }
}

/// The decoded meaning of a sprite-property byte.
pub open spec fn spec_decode_properties(value: u8) -> SpriteProperties {
    SpriteProperties {
        tilemap_index: value >> 7,
        size: spec_size_of_code((value >> 5) & 0b11),
        palette_index: (value >> 2) & 0b111,
        priority: value & 0b11,
    }
}

/// The byte a decoded sprite-property record encodes to.
pub open spec fn spec_encode_properties(p: SpriteProperties) -> u8 {
    (p.tilemap_index << 7) | (spec_size_code(p.size) << 5) | (p.palette_index << 2) | p.priority
}

/// Encoding the decoding of any property byte gives the byte back: the
/// four bit fields cover all eight bits.
pub proof fn lemma_properties_roundtrip(value: u8)
    ensures
        spec_encode_properties(spec_decode_properties(value)) == value,
{
    let code = (value >> 5) & 0b11;
    assert((value >> 5) & 0b11 < 4) by (bit_vector);
    assert(spec_size_code(spec_size_of_code(code)) == code);
    assert(((value >> 7) << 7) | ((((value >> 5) & 0b11)) << 5) | (((value >> 2) & 0b111) << 2) | (
    value & 0b11) == value) by (bit_vector);
}

/// A palette: 16 colors, each stored big-endian as a 15-bit word.
#[derive(Debug, Clone)]
pub struct Palette {
    pub colors: Vec<Color>,
}

impl View for Palette {
    type V = Seq<Color>;

    open spec fn view(&self) -> Seq<Color> {
        self.colors@
    }
}

/// An 8x8 tile of palette indices, row-major.
#[derive(Debug, Clone)]
pub struct Tile {
    pub pixels: Vec<u8>,
}

impl View for Tile {
    type V = Seq<u8>;

    open spec fn view(&self) -> Seq<u8> {
        self.pixels@
    }
}

impl DeepView for Tile {
    type V = Seq<u8>;

    open spec fn deep_view(&self) -> Seq<u8> {
        self.pixels@
    }
}

/// A 16x16 grid of tiles.
#[derive(Debug, Clone)]
pub struct Tilemap {
    pub tiles: Vec<Tile>,
}

impl View for Tilemap {
    type V = Seq<Seq<u8>>;

    open spec fn view(&self) -> Seq<Seq<u8>> {
        self.tiles.deep_view()
    }
}

/// A screen-sized grid of tile indices.
#[derive(Debug, Clone)]
pub struct Background {
    pub tiles: Vec<u8>,
}

impl View for Background {
    type V = Seq<u8>;

    open spec fn view(&self) -> Seq<u8> {
        self.tiles@
    }
}

/// A sprite record: decoded properties, position, first tile index within
/// its tilemap, and the info byte (bit 0 is the enable flag; the other
/// bits are reserved and round-trip unchanged).
#[derive(Debug, PartialEq, Eq, Copy, Clone)]
pub struct Sprite {
    pub properties: SpriteProperties,
    pub location: (u8, u8),
    pub gfx_start: u8,
    pub info: u8,
}

impl View for Sprite {
    type V = Sprite;

    open spec fn view(&self) -> Sprite {
        *self
    }
}

impl Sprite {
    /// Whether the sprite's enable bit is set.
    pub fn enabled(&self) -> (r: bool)
        ensures
            r == (self.info & 1 == 1),
    {
        self.info & 1 == 1
    }
}

/// The typed meaning of a sprite record's five bytes.
pub open spec fn spec_sprite_of_bytes(data: Seq<u8>) -> Sprite {
    Sprite {
        properties: spec_decode_properties(data[0]),
        location: (data[1], data[2]),
        gfx_start: data[3],
        info: data[4],
    }
}

/// The typed meaning of a palette's 32 bytes: 16 big-endian 15-bit color
/// words (the top bit of each word is defined to be zero, and is ignored
/// on read).
pub open spec fn spec_palette_of_bytes(data: Seq<u8>) -> Seq<Color> {
    Seq::new(
        PALETTE_LENGTH as nat,
        |i: int| spec_rgb15_to_color(spec_word(data[2 * i], data[2 * i + 1]) & 0x7FFF),
    )
}

/// The typed meaning of a tilemap's bytes: 256 runs of 64 palette
/// indices.
pub open spec fn spec_tilemap_of_bytes(data: Seq<u8>) -> Seq<Seq<u8>> {
    Seq::new(
        (TILEMAP_LENGTH * TILEMAP_LENGTH) as nat,
        |t: int| data.subrange(t * TILE_SIZE as int, t * TILE_SIZE as int + TILE_SIZE as int),
    )
}

/// A typed record read out of a fixed VRAM region: the region's start and
/// element size, what an element's bytes mean, and the well-formedness
/// every deserialized value has.
pub trait VRAMDeserialize: Sized + View {
    /// Start address of the region in VRAM and the byte size of a member.
    spec fn spec_dimensions() -> (u16, u16);

    /// The typed meaning of one member's bytes.
    spec fn spec_deserialize(data: Seq<u8>) -> Self::V;

    /// What the deserializer guarantees of every value it returns.
    spec fn deserialized_wf(&self) -> bool;

    /// Returns a tuple describing the start of the region in VRAM and the
    /// size of a member.
    fn dimensions() -> (r: (u16, u16))
        ensures
            r == Self::spec_dimensions(),
    ;

    /// Takes a slice of byte data and interprets it.
    fn deserialize(data: &[u8]) -> (r: Self)
        requires
            data@.len() == Self::spec_dimensions().1 as int,
        ensures
            r@ == Self::spec_deserialize(data@),
            r.deserialized_wf(),
    ;

    /// Gets the nth member of the region from the machine's memory.
    fn get_nth(devola: &mut Devola, index: u16) -> (r: Self)
        requires
            old(devola).wf(),
            Self::spec_dimensions().0 as int + Self::spec_dimensions().1 as int * (index as int
                + 1) <= MEMORY_SIZE,
        ensures
            final(devola).wf(),
            final(devola)@ == old(devola)@,
            same_program(old(devola), final(devola)),
            r@ == Self::spec_deserialize(
                old(devola)@.mem.subrange(
                    Self::spec_dimensions().0 as int + Self::spec_dimensions().1 as int
                        * index as int,
                    Self::spec_dimensions().0 as int + Self::spec_dimensions().1 as int * (
                    index as int + 1),
                ),
            ),
            r.deserialized_wf(),
    ;
}

impl VRAMDeserialize for Palette {
    open spec fn spec_dimensions() -> (u16, u16) {
        (PALETTE_START, PALETTE_SIZE as u16)
    }

    open spec fn spec_deserialize(data: Seq<u8>) -> Seq<Color> {
        spec_palette_of_bytes(data)
    }

    open spec fn deserialized_wf(&self) -> bool {
        self.colors@.len() == PALETTE_LENGTH
    }

    fn dimensions() -> (r: (u16, u16)) {
        (PALETTE_START, PALETTE_SIZE as u16)
    }

    fn deserialize(data: &[u8]) -> (r: Self) {
        // RGB15 are laid out as
        // MSB      LSB
        // 0rrrrrgg gggbbbbb
        let mut colors: Vec<Color> = Vec::new();
        let mut i: usize = 0;
        while i < PALETTE_LENGTH
            invariant
                i <= PALETTE_LENGTH,
                data@.len() == PALETTE_SIZE,
                colors@.len() == i,
                forall|j: int|
                    0 <= j < i ==> colors@[j] == spec_rgb15_to_color(
                        spec_word(data@[2 * j], data@[2 * j + 1]) & 0x7FFF,
                    ),
            decreases PALETTE_LENGTH - i,
        {
            let hi = data[2 * i];
            let lo = data[2 * i + 1];
            let color_word = crate::util::build_u16(hi, lo) & 0x7FFF;
            proof {
                let w = spec_word(hi, lo);
                assert(w & 0x7FFF < 0x8000) by (bit_vector);
            }
            colors.push(rgb15_to_color(color_word));
            i = i + 1;
        }
        proof {
            assert(colors@ =~= spec_palette_of_bytes(data@));
        }
        Palette { colors }
    }

    fn get_nth(devola: &mut Devola, index: u16) -> (r: Self) {
        let (start, size) = (PALETTE_START, PALETTE_SIZE as u16);
        proof {
            assert(Self::spec_dimensions() == (start, size));
            assert((size as int) * (index as int + 1) == (size as int) * (index as int) + (
            size as int)) by (nonlinear_arith);
        }
        let data = memgetn(devola, start + size * index, size);
        Self::deserialize(data.as_slice())
    }
}

impl VRAMDeserialize for Tile {
    /// Tiles have no region of their own: they live inside the tilemap
    /// region, 64 bytes each.
    open spec fn spec_dimensions() -> (u16, u16) {
        (TILEMAP_START, TILE_SIZE as u16)
    }

    open spec fn spec_deserialize(data: Seq<u8>) -> Seq<u8> {
        data
    }

    open spec fn deserialized_wf(&self) -> bool {
        self.pixels@.len() == TILE_SIZE
    }

    fn dimensions() -> (r: (u16, u16)) {
        (TILEMAP_START, TILE_SIZE as u16)
    }

    fn deserialize(data: &[u8]) -> (r: Self) {
        let mut pixels: Vec<u8> = Vec::new();
        let mut i: usize = 0;
        while i < data.len()
            invariant
                i <= data@.len(),
                pixels@ =~= data@.subrange(0, i as int),
            decreases data@.len() - i,
        {
            pixels.push(data[i]);
            i = i + 1;
        }
        proof {
            assert(pixels@ =~= data@);
        }
        Tile { pixels }
    }

    fn get_nth(devola: &mut Devola, index: u16) -> (r: Self) {
        let (start, size) = (TILEMAP_START, TILE_SIZE as u16);
        proof {
            assert(Self::spec_dimensions() == (start, size));
            assert((size as int) * (index as int + 1) == (size as int) * (index as int) + (
            size as int)) by (nonlinear_arith);
        }
        let data = memgetn(devola, start + size * index, size);
        Self::deserialize(data.as_slice())
    }
}

impl VRAMDeserialize for Tilemap {
    open spec fn spec_dimensions() -> (u16, u16) {
        (TILEMAP_START, TILEMAP_SIZE as u16)
    }

    open spec fn spec_deserialize(data: Seq<u8>) -> Seq<Seq<u8>> {
        spec_tilemap_of_bytes(data)
    }

    open spec fn deserialized_wf(&self) -> bool {
        &&& self.tiles@.len() == TILEMAP_LENGTH * TILEMAP_LENGTH
        &&& forall|t: int|
            0 <= t < self.tiles@.len() ==> (#[trigger] self.tiles@[t]).pixels@.len() == TILE_SIZE
    }

    fn dimensions() -> (r: (u16, u16)) {
        (TILEMAP_START, TILEMAP_SIZE as u16)
    }

    fn deserialize(data: &[u8]) -> (r: Self) {
        proof {
            assert(TILE_SIZE == 64);
            assert(TILEMAP_LENGTH * TILEMAP_LENGTH == 256);
            assert(TILEMAP_SIZE == 16384);
        }
        let mut tiles: Vec<Tile> = Vec::new();
        let mut t: usize = 0;
        while t < TILEMAP_LENGTH * TILEMAP_LENGTH
            invariant
                t <= 256,
                TILEMAP_LENGTH * TILEMAP_LENGTH == 256,
                TILE_SIZE == 64,
                TILEMAP_SIZE == 16384,
                data@.len() == TILEMAP_SIZE,
                tiles@.len() == t,
                forall|j: int|
                    0 <= j < t ==> (#[trigger] tiles.deep_view()[j]) == data@.subrange(
                        j * TILE_SIZE as int,
                        j * TILE_SIZE as int + TILE_SIZE as int,
                    ),
                forall|j: int|
                    0 <= j < t ==> (#[trigger] tiles@[j]).pixels@.len() == TILE_SIZE,
            decreases TILEMAP_LENGTH * TILEMAP_LENGTH - t,
        {
            let mut pixels: Vec<u8> = Vec::new();
            let mut i: usize = 0;
            proof {
                assert(pixels@ =~= data@.subrange(
                    t * TILE_SIZE as int,
                    t * TILE_SIZE as int,
                ));
            }
            while i < TILE_SIZE
                invariant
                    i <= TILE_SIZE,
                    t < 256,
                    TILE_SIZE == 64,
                    TILEMAP_SIZE == 16384,
                    data@.len() == TILEMAP_SIZE,
                    pixels@ =~= data@.subrange(
                        t * TILE_SIZE as int,
                        t * TILE_SIZE as int + i as int,
                    ),
                decreases TILE_SIZE - i,
            {
                pixels.push(data[t * TILE_SIZE + i]);
                i = i + 1;
            }
            let ghost tiles0 = tiles.deep_view();
            let ghost pv = pixels@;
            tiles.push(Tile { pixels });
            proof {
                assert(tiles.deep_view() =~~= tiles0.push(pv));
                assert(pv =~= data@.subrange(
                    t * TILE_SIZE as int,
                    t * TILE_SIZE as int + TILE_SIZE as int,
                ));
            }
            t = t + 1;
        }
        proof {
            assert(tiles.deep_view() =~~= spec_tilemap_of_bytes(data@));
        }
        Tilemap { tiles }
    }

    fn get_nth(devola: &mut Devola, index: u16) -> (r: Self) {
        let (start, size) = (TILEMAP_START, TILEMAP_SIZE as u16);
        proof {
            assert(Self::spec_dimensions() == (start, size));
            assert((size as int) * (index as int + 1) == (size as int) * (index as int) + (
            size as int)) by (nonlinear_arith);
        }
        let data = memgetn(devola, start + size * index, size);
        Self::deserialize(data.as_slice())
    }
}

impl VRAMDeserialize for Background {
    open spec fn spec_dimensions() -> (u16, u16) {
        (BG_START, BG_SIZE as u16)
    }

    open spec fn spec_deserialize(data: Seq<u8>) -> Seq<u8> {
        data
    }

    open spec fn deserialized_wf(&self) -> bool {
        self.tiles@.len() == BG_SIZE
    }

    fn dimensions() -> (r: (u16, u16)) {
        (BG_START, BG_SIZE as u16)
    }

    fn deserialize(data: &[u8]) -> (r: Self) {
        let mut tiles: Vec<u8> = Vec::new();
        let mut i: usize = 0;
        while i < data.len()
            invariant
                i <= data@.len(),
                tiles@ =~= data@.subrange(0, i as int),
            decreases data@.len() - i,
        {
            tiles.push(data[i]);
            i = i + 1;
        }
        proof {
            assert(tiles@ =~= data@);
        }
        Background { tiles }
    }

    fn get_nth(devola: &mut Devola, index: u16) -> (r: Self) {
        let (start, size) = (BG_START, BG_SIZE as u16);
        proof {
            assert(Self::spec_dimensions() == (start, size));
            assert((size as int) * (index as int + 1) == (size as int) * (index as int) + (
            size as int)) by (nonlinear_arith);
        }
        let data = memgetn(devola, start + size * index, size);
        Self::deserialize(data.as_slice())
    }
}

impl VRAMDeserialize for Sprite {
    open spec fn spec_dimensions() -> (u16, u16) {
        (SPRITE_START, SPRITE_SIZE as u16)
    }

    open spec fn spec_deserialize(data: Seq<u8>) -> Sprite {
        spec_sprite_of_bytes(data)
    }

    open spec fn deserialized_wf(&self) -> bool {
        self.properties.wf()
    }

    fn dimensions() -> (r: (u16, u16)) {
        (SPRITE_START, SPRITE_SIZE as u16)
    }

    fn deserialize(data: &[u8]) -> (r: Self) {
        Sprite {
            properties: SpriteProperties::decode(data[0]),
            location: (data[1], data[2]),
            gfx_start: data[3],
            info: data[4],
        }
    }

    fn get_nth(devola: &mut Devola, index: u16) -> (r: Self) {
        let (start, size) = (SPRITE_START, SPRITE_SIZE as u16);
        proof {
            assert(Self::spec_dimensions() == (start, size));
            assert((size as int) * (index as int + 1) == (size as int) * (index as int) + (
            size as int)) by (nonlinear_arith);
        }
        let data = memgetn(devola, start + size * index, size);
        Self::deserialize(data.as_slice())
    }
}


/// The whole typed VRAM: palettes, tilemaps, backgrounds and sprites.
#[derive(Debug)]
pub struct VRAMModel {
    pub palettes: Vec<Palette>,
    pub tilemaps: Vec<Tilemap>,
    pub backgrounds: Vec<Background>,
    pub sprites: Vec<Sprite>,
}

impl VRAMModel {
    /// Every region has its full count and every member its full size,
    /// and every sprite's decoded properties fit their bit widths.
    pub open spec fn wf(&self) -> bool {
        &&& self.palettes@.len() == crate::mmio::PALETTE_COUNT
        &&& forall|i: int|
            0 <= i < self.palettes@.len() ==> (#[trigger] self.palettes@[i]).colors@.len()
                == PALETTE_LENGTH
        &&& self.tilemaps@.len() == crate::mmio::TILEMAP_COUNT
        &&& forall|i: int|
            0 <= i < self.tilemaps@.len() ==> (#[trigger] self.tilemaps@[i]).deserialized_wf()
        &&& self.backgrounds@.len() == crate::mmio::BG_COUNT
        &&& forall|i: int|
            0 <= i < self.backgrounds@.len() ==> (#[trigger] self.backgrounds@[i]).tiles@.len()
                == BG_SIZE
        &&& self.sprites@.len() == SPRITE_COUNT
        &&& forall|i: int|
            0 <= i < self.sprites@.len() ==> (#[trigger] self.sprites@[i]).properties.wf()
    }

    /// An all-black tile.
    fn empty_tile() -> (r: Tile)
        ensures
            r.pixels@.len() == TILE_SIZE,
            forall|i: int| 0 <= i < r.pixels@.len() ==> r.pixels@[i] == 0,
    {
        let mut pixels: Vec<u8> = Vec::new();
        let mut i: usize = 0;
        while i < TILE_SIZE
            invariant
                pixels@.len() == i,
                i <= TILE_SIZE,
                forall|j: int| 0 <= j < i ==> pixels@[j] == 0,
            decreases TILE_SIZE - i,
        {
            pixels.push(0);
            i = i + 1;
        }
        Tile { pixels }
    }

    /// An all-black palette.
    fn empty_palette() -> (r: Palette)
        ensures
            r.colors@.len() == PALETTE_LENGTH,
            forall|i: int| 0 <= i < r.colors@.len() ==> r.colors@[i] == (Color { r: 0, g: 0, b: 0 }),
    {
        let mut colors: Vec<Color> = Vec::new();
        let mut i: usize = 0;
        while i < PALETTE_LENGTH
            invariant
                colors@.len() == i,
                i <= PALETTE_LENGTH,
                forall|j: int| 0 <= j < i ==> colors@[j] == (Color { r: 0, g: 0, b: 0 }),
            decreases PALETTE_LENGTH - i,
        {
            colors.push(Color { r: 0, g: 0, b: 0 });
            i = i + 1;
        }
        Palette { colors }
    }

    /// A tilemap of all-black tiles.
    fn empty_tilemap() -> (r: Tilemap)
        ensures
            r.deserialized_wf(),
    {
        let mut tiles: Vec<Tile> = Vec::new();
        let mut i: usize = 0;
        while i < TILEMAP_LENGTH * TILEMAP_LENGTH
            invariant
                tiles@.len() == i,
                i <= TILEMAP_LENGTH * TILEMAP_LENGTH,
                forall|j: int|
                    0 <= j < i ==> (#[trigger] tiles@[j]).pixels@.len() == TILE_SIZE,
            decreases TILEMAP_LENGTH * TILEMAP_LENGTH - i,
        {
            tiles.push(Self::empty_tile());
            i = i + 1;
        }
        Tilemap { tiles }
    }

    /// An all-zero background.
    fn empty_background() -> (r: Background)
        ensures
            r.tiles@.len() == BG_SIZE,
    {
        let mut tiles: Vec<u8> = Vec::new();
        let mut i: usize = 0;
        while i < BG_SIZE
            invariant
                tiles@.len() == i,
                i <= BG_SIZE,
            decreases BG_SIZE - i,
        {
            tiles.push(0);
            i = i + 1;
        }
        Background { tiles }
    }

    /// A disabled sprite at the origin.
    fn empty_sprite() -> (r: Sprite)
        ensures
            r.properties.wf(),
            r.info == 0,
            r.location == (0u8, 0u8),
            r.gfx_start == 0,
    {
        Sprite {
            properties: SpriteProperties {
                tilemap_index: 0,
                palette_index: 0,
                size: SpriteSize::X8,
                priority: 0,
            },
            location: (0, 0),
            gfx_start: 0,
            info: 0,
        }
    }

    /// A fresh VRAM model: black palettes and tiles, zero backgrounds,
    /// every sprite disabled.
    pub fn empty_vram() -> (r: VRAMModel)
        ensures
            r.wf(),
            forall|i: int| 0 <= i < r.sprites@.len() ==> (#[trigger] r.sprites@[i]).info == 0,
    {
        let mut palettes: Vec<Palette> = Vec::new();
        let mut i: usize = 0;
        while i < crate::mmio::PALETTE_COUNT
            invariant
                palettes@.len() == i,
                i <= crate::mmio::PALETTE_COUNT,
                forall|j: int|
                    0 <= j < i ==> (#[trigger] palettes@[j]).colors@.len() == PALETTE_LENGTH,
            decreases crate::mmio::PALETTE_COUNT - i,
        {
            palettes.push(Self::empty_palette());
            i = i + 1;
        }
        let mut tilemaps: Vec<Tilemap> = Vec::new();
        let mut i: usize = 0;
        while i < crate::mmio::TILEMAP_COUNT
            invariant
                tilemaps@.len() == i,
                i <= crate::mmio::TILEMAP_COUNT,
                forall|j: int| 0 <= j < i ==> (#[trigger] tilemaps@[j]).deserialized_wf(),
            decreases crate::mmio::TILEMAP_COUNT - i,
        {
            tilemaps.push(Self::empty_tilemap());
            i = i + 1;
        }
        let mut backgrounds: Vec<Background> = Vec::new();
        let mut i: usize = 0;
        while i < crate::mmio::BG_COUNT
            invariant
                backgrounds@.len() == i,
                i <= crate::mmio::BG_COUNT,
                forall|j: int|
                    0 <= j < i ==> (#[trigger] backgrounds@[j]).tiles@.len() == BG_SIZE,
            decreases crate::mmio::BG_COUNT - i,
        {
            backgrounds.push(Self::empty_background());
            i = i + 1;
        }
        let mut sprites: Vec<Sprite> = Vec::new();
        let mut i: usize = 0;
        while i < SPRITE_COUNT
            invariant
                sprites@.len() == i,
                i <= SPRITE_COUNT,
                forall|j: int|
                    0 <= j < i ==> (#[trigger] sprites@[j]).properties.wf() && sprites@[j].info
                        == 0,
            decreases SPRITE_COUNT - i,
        {
            sprites.push(Self::empty_sprite());
            i = i + 1;
        }
        VRAMModel { palettes, tilemaps, backgrounds, sprites }
    }

    /// Sets a sprite's enable bit; everything else stays.
    pub fn enable_sprite(&mut self, sprite_index: u8)
        requires
            old(self).wf(),
            (sprite_index as int) < SPRITE_COUNT,
        ensures
            final(self).wf(),
            final(self).palettes == old(self).palettes,
            final(self).tilemaps == old(self).tilemaps,
            final(self).backgrounds == old(self).backgrounds,
            final(self).sprites@.len() == old(self).sprites@.len(),
            forall|j: int|
                0 <= j < final(self).sprites@.len() && j != sprite_index as int
                    ==> final(self).sprites@[j] == old(self).sprites@[j],
            final(self).sprites@[sprite_index as int] == (Sprite {
                info: old(self).sprites@[sprite_index as int].info | 0b00000001,
                ..old(self).sprites@[sprite_index as int]
            }),
    {
        let render_info = self.sprites[sprite_index as usize].info;
        let updated = Sprite {
            info: render_info | 0b00000001,
            ..self.sprites[sprite_index as usize]
        };
        self.sprites[sprite_index as usize] = updated;
    }

    /// Clears a sprite's enable bit; everything else stays.
    pub fn disable_sprite(&mut self, sprite_index: u8)
        requires
            old(self).wf(),
            (sprite_index as int) < SPRITE_COUNT,
        ensures
            final(self).wf(),
            final(self).palettes == old(self).palettes,
            final(self).tilemaps == old(self).tilemaps,
            final(self).backgrounds == old(self).backgrounds,
            final(self).sprites@.len() == old(self).sprites@.len(),
            forall|j: int|
                0 <= j < final(self).sprites@.len() && j != sprite_index as int
                    ==> final(self).sprites@[j] == old(self).sprites@[j],
            final(self).sprites@[sprite_index as int] == (Sprite {
                info: old(self).sprites@[sprite_index as int].info & 0b11111110,
                ..old(self).sprites@[sprite_index as int]
            }),
    {
        let render_info = self.sprites[sprite_index as usize].info;
        let updated = Sprite {
            info: render_info & 0b11111110,
            ..self.sprites[sprite_index as usize]
        };
        self.sprites[sprite_index as usize] = updated;
    }
}

} // verus!
