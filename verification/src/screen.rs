//! The picture on show: a background, an optional cursor sprite, and the
//! pixel format in which a client wants them.

use crate::bitmask::{bitmask, pack_bitmask};
use crate::error::RfbError;
use crate::pixel::{PixelFormat, Rgb};
use crate::tiles::{
    covered, lemma_region_index, lemma_region_len, region, tile_span, tiles_along, total_len,
    ZRLE_TILE_SIZE,
};
use crate::zlib::{frame_accepted, slice_views, sync_block, ZrleStream};
use std::sync::Arc;
use vstd::prelude::*;

verus! {

/// A decoded picture: `width * height` pixels, row by row from the top.
#[derive(Debug)]
pub struct Picture {
    pub width: u32,
    pub height: u32,
    pub pixels: Vec<Rgb>,
}

/// A decoded cursor picture: its colours, and for each pixel how opaque it is.
#[derive(Debug)]
pub struct CursorPicture {
    pub width: u32,
    pub height: u32,
    pub pixels: Vec<Rgb>,
    pub alpha: Vec<u8>,
}

/// The cursor sprite as the screen keeps it: the colours, and one bit for
/// each pixel that tells whether it is drawn.
#[derive(Debug)]
pub(crate) struct Pointer {
    pub(crate) width: u16,
    pub(crate) height: u16,
    pub(crate) pixels: Vec<Rgb>,
    pub(crate) bitmask: Vec<u8>,
}

/// A cursor sprite as a mathematical value.
pub struct PointerView {
    pub width: u16,
    pub height: u16,
    pub pixels: Seq<Rgb>,
    pub bitmask: Seq<u8>,
}

/// A screen as a mathematical value.
pub struct ScreenView {
    pub dimensions: (u16, u16),
    pub background: Seq<Rgb>,
    pub pointer: Option<PointerView>,
    pub format: PixelFormat,
}

impl Picture {
    /// True when neither side is above 65535 and there is a pixel for every
    /// place.
    pub open spec fn fits(self) -> bool {
        self.width <= 0xffff && self.height <= 0xffff && self.pixels@.len() == self.width
            * self.height
    }
}

impl CursorPicture {
    /// True when neither side is above 65535 and there is a colour and an
    /// alpha value for every place.
    pub open spec fn fits(self) -> bool {
        self.width <= 0xffff && self.height <= 0xffff && self.pixels@.len() == self.width
            * self.height && self.alpha@.len() == self.width * self.height
    }

    /// The sprite made of this picture.
    pub open spec fn sprite(self) -> PointerView {
        PointerView {
            width: self.width as u16,
            height: self.height as u16,
            pixels: self.pixels@,
            bitmask: bitmask(self.alpha@, self.width as int, self.height as int),
        }
    }
}

impl ScreenView {
    /// True when the background, and the sprite if there is one, have a
    /// pixel for every place. The view of every [`Screen`] is valid.
    pub open spec fn valid(self) -> bool {
        &&& self.background.len() == self.dimensions.0 * self.dimensions.1
        &&& self.pointer matches Some(pointer) ==> pointer.pixels.len() == pointer.width
            * pointer.height
    }

    /// The pixels of the tile in column `tx` and row `ty` of the tiling.
    pub open spec fn tile_pixels(self, tx: int, ty: int) -> Seq<Rgb> {
        region(
            self.background,
            self.dimensions.0 as int,
            64 * tx,
            64 * ty,
            tile_span(self.dimensions.0 as int, tx),
            tile_span(self.dimensions.1 as int, ty),
        )
    }

    /// One tile as ZRLE data: the subencoding byte 0, for raw pixels, and
    /// the pixels of the tile in compact form.
    pub open spec fn tile(self, tx: int, ty: int) -> Seq<u8> {
        seq![0u8] + self.format.compressed_bytes(self.tile_pixels(tx, ty))
    }

    /// Number of tiles in the picture.
    pub open spec fn tile_count(self) -> int {
        tiles_along(self.dimensions.0 as int) * tiles_along(self.dimensions.1 as int)
    }

    /// The tiles of the picture, row by row of tiles, or why they cannot be
    /// made. A picture without pixels has no tiles, whatever the format.
    pub open spec fn zrle_tiles(self) -> Result<Seq<Seq<u8>>, RfbError> {
        if self.tile_count() == 0 || self.format.compressible() {
            Ok(
                Seq::new(
                    self.tile_count() as nat,
                    |k: int|
                        self.tile(
                            k % tiles_along(self.dimensions.0 as int),
                            k / tiles_along(self.dimensions.0 as int),
                        ),
                ),
            )
        } else {
            Err(RfbError::Unsupported)
        }
    }

    /// The payload of the cursor rectangle, if there is a sprite and the
    /// format can pack it: its pixels, then its bitmask.
    pub open spec fn cursor_payload(self) -> Option<Seq<u8>> {
        match self.pointer {
            Some(pointer) => match self.format.encoded(pointer.pixels) {
                Ok(bytes) => Some(bytes + pointer.bitmask),
                Err(_) => None,
            },
            None => None,
        }
    }

    /// The size of the sprite, or zero by zero without one.
    pub open spec fn pointer_size(self) -> (u16, u16) {
        match self.pointer {
            Some(pointer) => (pointer.width, pointer.height),
            None => (0, 0),
        }
    }
}

/// The tiling of the background. There are `tiles_along(width)` times
/// `tiles_along(height)` tiles, row by row of tiles. The tile in column `tx`
/// and row `ty` starts at (`64 * tx`, `64 * ty`), is 64 pixels wide and high
/// or as many as are left to the edge, holds the pixels of that window, and
/// begins with the subencoding byte 0.
pub proof fn lemma_zrle_tiling(screen: ScreenView, tx: int, ty: int)
    requires
        screen.valid(),
        screen.format.compressible(),
        0 <= tx < tiles_along(screen.dimensions.0 as int),
        0 <= ty < tiles_along(screen.dimensions.1 as int),
    ensures
        screen.zrle_tiles() is Ok,
        screen.zrle_tiles()->Ok_0.len() == tiles_along(screen.dimensions.0 as int) * tiles_along(
            screen.dimensions.1 as int,
        ),
        0 <= ty * tiles_along(screen.dimensions.0 as int) + tx < screen.zrle_tiles()->Ok_0.len(),
        screen.zrle_tiles()->Ok_0[ty * tiles_along(screen.dimensions.0 as int) + tx] == screen.tile(
            tx,
            ty,
        ),
        0 < tile_span(screen.dimensions.0 as int, tx) <= 64,
        0 < tile_span(screen.dimensions.1 as int, ty) <= 64,
        64 * tx + tile_span(screen.dimensions.0 as int, tx) <= screen.dimensions.0,
        64 * ty + tile_span(screen.dimensions.1 as int, ty) <= screen.dimensions.1,
        screen.tile_pixels(tx, ty).len() == tile_span(screen.dimensions.0 as int, tx) * tile_span(
            screen.dimensions.1 as int,
            ty,
        ),
        screen.tile(tx, ty)[0] == 0,
{
    let width = screen.dimensions.0 as int;
    let height = screen.dimensions.1 as int;
    let across = tiles_along(width);
    let down = tiles_along(height);
    let k = ty * across + tx;
    assert(0 <= ty * across && k < across * down) by (nonlinear_arith)
        requires
            k == ty * across + tx,
            0 <= tx < across,
            0 <= ty < down,
    ;
    vstd::arithmetic::div_mod::lemma_fundamental_div_mod_converse(k, across, ty, tx);
    lemma_window(screen, tx, ty);
    lemma_region_len(
        screen.background,
        width,
        64 * tx,
        64 * ty,
        tile_span(width, tx),
        tile_span(height, ty),
    );
}

/// From the tiles in compact form the picture can be read back: the three
/// bytes of the pixel at (`x`, `y`) stand in the tile that covers it, behind
/// the subencoding byte and the pixels before it in the tile.
pub proof fn lemma_zrle_pixel(screen: ScreenView, x: int, y: int, offset: int)
    requires
        screen.valid(),
        screen.format.compact(),
        0 <= x < screen.dimensions.0,
        0 <= y < screen.dimensions.1,
        0 <= offset < 3,
    ensures
        screen.tile(x / 64, y / 64).len() == 1 + 3 * (tile_span(screen.dimensions.0 as int, x / 64)
            * tile_span(screen.dimensions.1 as int, y / 64)),
        0 <= (y % 64) * tile_span(screen.dimensions.0 as int, x / 64) + x % 64 < tile_span(
            screen.dimensions.0 as int,
            x / 64,
        ) * tile_span(screen.dimensions.1 as int, y / 64),
        screen.tile(x / 64, y / 64)[1 + 3 * ((y % 64) * tile_span(
            screen.dimensions.0 as int,
            x / 64,
        ) + x % 64) + offset] == screen.format.compact_bytes(
            screen.background[y * screen.dimensions.0 + x],
        )[offset],
{
    let width = screen.dimensions.0 as int;
    let height = screen.dimensions.1 as int;
    let tx = x / 64;
    let ty = y / 64;
    let across = tile_span(width, tx);
    let down = tile_span(height, ty);
    let column = x % 64;
    let row = y % 64;
    let pixels = screen.tile_pixels(tx, ty);
    let index = row * across + column;
    lemma_window(screen, tx, ty);
    lemma_region_len(screen.background, width, 64 * tx, 64 * ty, across, down);
    lemma_region_index(screen.background, width, 64 * tx, 64 * ty, across, down, column, row);
    assert(0 <= row * across && index < across * down) by (nonlinear_arith)
        requires
            index == row * across + column,
            0 <= column < across,
            0 <= row < down,
    ;
    crate::pixel::lemma_compact_layout(screen.format, pixels, index, offset);
}

/// In compact form the tiles of a picture hold one byte for each tile and
/// three for each pixel of the picture.
pub proof fn lemma_zrle_total_len(screen: ScreenView)
    requires
        screen.valid(),
        screen.format.compact(),
        screen.format.compressible(),
    ensures
        screen.zrle_tiles() is Ok,
        total_len(screen.zrle_tiles()->Ok_0) == screen.tile_count() + 3 * (screen.dimensions.0
            * screen.dimensions.1),
{
    let width = screen.dimensions.0 as int;
    let height = screen.dimensions.1 as int;
    let across = tiles_along(width);
    let down = tiles_along(height);
    let tiles = screen.zrle_tiles()->Ok_0;
    if across == 0 || down == 0 {
        assert(across * down == 0) by (nonlinear_arith)
            requires
                across == 0 || down == 0,
        ;
        assert(width * height == 0) by (nonlinear_arith)
            requires
                width == 0 || height == 0,
        ;
    } else {
        lemma_tiles_prefix(screen, down, 0);
        assert(down * across == across * down) by (nonlinear_arith);
        assert(tiles.take(tiles.len() as int) =~= tiles);
        assert(covered(height, down) == height);
        assert(tile_span(height, down) * covered(width, 0) == 0) by (nonlinear_arith)
            requires
                covered(width, 0) == 0,
        ;
        assert(height * width == width * height) by (nonlinear_arith);
    }
}

/// The bytes of the tiles before the tile in column `tx` and row `ty`: one
/// for each of them and three for each pixel they cover.
proof fn lemma_tiles_prefix(screen: ScreenView, ty: int, tx: int)
    requires
        screen.valid(),
        screen.format.compact(),
        screen.format.compressible(),
        0 < tiles_along(screen.dimensions.0 as int),
        0 <= ty,
        0 <= tx <= tiles_along(screen.dimensions.0 as int),
        ty < tiles_along(screen.dimensions.1 as int) || (ty == tiles_along(
            screen.dimensions.1 as int,
        ) && tx == 0),
    ensures
        screen.zrle_tiles() is Ok,
        0 <= ty * tiles_along(screen.dimensions.0 as int) + tx <= screen.zrle_tiles()->Ok_0.len(),
        total_len(
            screen.zrle_tiles()->Ok_0.take(ty * tiles_along(screen.dimensions.0 as int) + tx),
        ) == ty * tiles_along(screen.dimensions.0 as int) + tx + 3 * (covered(
            screen.dimensions.1 as int,
            ty,
        ) * screen.dimensions.0 + tile_span(screen.dimensions.1 as int, ty) * covered(
            screen.dimensions.0 as int,
            tx,
        )),
    decreases ty, tx,
{
    let width = screen.dimensions.0 as int;
    let height = screen.dimensions.1 as int;
    let across = tiles_along(width);
    let down = tiles_along(height);
    let tiles = screen.zrle_tiles()->Ok_0;
    let k = ty * across + tx;
    assert(0 <= ty * across && k <= across * down) by (nonlinear_arith)
        requires
            k == ty * across + tx,
            0 <= tx <= across,
            0 <= ty,
            ty < down || (ty == down && tx == 0),
    ;
    if tx > 0 {
        lemma_tiles_prefix(screen, ty, tx - 1);
        lemma_zrle_tiling(screen, tx - 1, ty);
        lemma_tile_len(screen, tx - 1, ty);
        let wide = tile_span(width, tx - 1);
        let high = tile_span(height, ty);
        assert(tiles.take(k).drop_last() =~= tiles.take(k - 1));
        assert(tiles.take(k).last() == screen.tile(tx - 1, ty));
        assert(covered(width, tx) == covered(width, tx - 1) + wide);
        assert(high * covered(width, tx) == high * covered(width, tx - 1) + wide * high)
            by (nonlinear_arith)
            requires
                covered(width, tx) == covered(width, tx - 1) + wide,
        ;
    } else if ty > 0 {
        lemma_tiles_prefix(screen, ty - 1, across);
        let high = tile_span(height, ty - 1);
        assert((ty - 1) * across + across == ty * across) by (nonlinear_arith);
        assert(covered(width, across) == width);
        assert(covered(height, ty) == covered(height, ty - 1) + high);
        assert(covered(height, ty) * width == covered(height, ty - 1) * width + high * width)
            by (nonlinear_arith)
            requires
                covered(height, ty) == covered(height, ty - 1) + high,
        ;
        assert(tile_span(height, ty) * covered(width, 0) == 0) by (nonlinear_arith)
            requires
                covered(width, 0) == 0,
        ;
    } else {
        assert(tiles.take(0) =~= Seq::<Seq<u8>>::empty());
        assert(covered(height, 0) * width + tile_span(height, 0) * covered(width, 0) == 0)
            by (nonlinear_arith)
            requires
                covered(height, 0) == 0,
                covered(width, 0) == 0,
        ;
    }
}

/// A tile in compact form is one byte and three for each of its pixels.
proof fn lemma_tile_len(screen: ScreenView, tx: int, ty: int)
    requires
        screen.valid(),
        screen.format.compact(),
        0 <= tx < tiles_along(screen.dimensions.0 as int),
        0 <= ty < tiles_along(screen.dimensions.1 as int),
    ensures
        screen.tile(tx, ty).len() == 1 + 3 * (tile_span(screen.dimensions.0 as int, tx)
            * tile_span(screen.dimensions.1 as int, ty)),
{
    lemma_window(screen, tx, ty);
    lemma_region_len(
        screen.background,
        screen.dimensions.0 as int,
        64 * tx,
        64 * ty,
        tile_span(screen.dimensions.0 as int, tx),
        tile_span(screen.dimensions.1 as int, ty),
    );
    crate::pixel::lemma_compact_len(screen.format, screen.tile_pixels(tx, ty));
}

/// A tile lies within the picture.
proof fn lemma_window(screen: ScreenView, tx: int, ty: int)
    requires
        screen.valid(),
        0 <= tx < tiles_along(screen.dimensions.0 as int),
        0 <= ty < tiles_along(screen.dimensions.1 as int),
    ensures
        64 * tx + tile_span(screen.dimensions.0 as int, tx) <= screen.dimensions.0,
        (64 * ty + tile_span(screen.dimensions.1 as int, ty)) * screen.dimensions.0
            <= screen.background.len(),
{
    let width = screen.dimensions.0 as int;
    let height = screen.dimensions.1 as int;
    assert((64 * ty + tile_span(height, ty)) * width <= height * width) by (nonlinear_arith)
        requires
            64 * ty + tile_span(height, ty) <= height,
            0 <= width,
    ;
}

/// `Arc::clone`: one more handle on the same value.
#[verifier::external_body]
fn share<T>(shared: &Arc<T>) -> (same: Arc<T>)
    ensures
        same == *shared,
{
    Arc::clone(shared)
}

/// What a connection shows: the background, the cursor sprite if there is
/// one, and the pixel format asked for. Copies share the pictures.
pub struct Screen {
    background: Arc<Vec<Rgb>>,
    dimensions: (u16, u16),
    pointer: Option<Arc<Pointer>>,
    format: PixelFormat,
}

impl View for Screen {
    type V = ScreenView;

    closed spec fn view(&self) -> ScreenView {
        ScreenView {
            dimensions: self.dimensions,
            background: self.background@,
            pointer: match self.pointer {
                Some(pointer) => Some(
                    PointerView {
                        width: pointer.width,
                        height: pointer.height,
                        pixels: pointer.pixels@,
                        bitmask: pointer.bitmask@,
                    },
                ),
                None => None,
            },
            format: self.format,
        }
    }
}

impl Clone for Screen {
    fn clone(&self) -> (copy: Screen)
        ensures
            copy@ == self@,
    {
        proof {
            use_type_invariant(self);
        }
        Screen {
            background: share(&self.background),
            dimensions: self.dimensions,
            pointer: match &self.pointer {
                Some(pointer) => Some(share(pointer)),
                None => None,
            },
            format: self.format,
        }
    }
}

impl Screen {
    #[verifier::type_invariant]
    spec fn sound(&self) -> bool {
        &&& self.background@.len() == self.dimensions.0 * self.dimensions.1
        &&& self.pointer matches Some(pointer) ==> pointer.pixels@.len() == pointer.width
            * pointer.height
    }

    /// The screen as it is before a client has asked for anything.
    pub open spec fn opening(background: Picture, pointer: Option<CursorPicture>) -> ScreenView {
        ScreenView {
            dimensions: (background.width as u16, background.height as u16),
            background: background.pixels@,
            pointer: match pointer {
                Some(cursor) => Some(cursor.sprite()),
                None => None,
            },
            format: PixelFormat::spec_rgb888(),
        }
    }

    /// Makes a screen of a background and, if one is given, a cursor
    /// picture, in the RGB888 format. The pictures must fit.
    pub fn create(background: Picture, pointer: Option<CursorPicture>) -> (result: Result<
        Screen,
        RfbError,
    >)
        ensures
            match result {
                Ok(screen) => background.fits() && (pointer matches Some(cursor) ==> cursor.fits())
                    && screen@ == Screen::opening(background, pointer) && screen@.valid(),
                Err(e) => e == RfbError::ConfigError && !(background.fits() && (
                pointer matches Some(cursor) ==> cursor.fits())),
            },
    {
        if background.width > 0xffff || background.height > 0xffff {
            return Err(RfbError::ConfigError);
        }
        assert(background.width * background.height <= 0xffff * 0xffff) by (nonlinear_arith)
            requires
                0 <= background.width <= 0xffff,
                0 <= background.height <= 0xffff,
        ;
        if background.pixels.len() as u64 != (background.width as u64) * (background.height as u64) {
            return Err(RfbError::ConfigError);
        }
        let dimensions = (background.width as u16, background.height as u16);
        let pointer = match pointer {
            Some(cursor) => {
                if cursor.width > 0xffff || cursor.height > 0xffff {
                    return Err(RfbError::ConfigError);
                }
                assert(cursor.width * cursor.height <= 0xffff * 0xffff) by (nonlinear_arith)
                    requires
                        0 <= cursor.width <= 0xffff,
                        0 <= cursor.height <= 0xffff,
                ;
                let area: u64 = (cursor.width as u64) * (cursor.height as u64);
                if cursor.pixels.len() as u64 != area || cursor.alpha.len() as u64 != area {
                    return Err(RfbError::ConfigError);
                }
                let width = cursor.width as u16;
                let height = cursor.height as u16;
                let bitmask = pack_bitmask(cursor.alpha.as_slice(), width, height);
                Some(Arc::new(Pointer { width, height, pixels: cursor.pixels, bitmask }))
            },
            None => None,
        };
        Ok(
            Screen {
                background: Arc::new(background.pixels),
                dimensions,
                pointer,
                format: PixelFormat::rgb888(),
            },
        )
    }

    /// Width and height of the background.
    pub fn dimensions(&self) -> (dimensions: (u16, u16))
        ensures
            dimensions == self@.dimensions,
            self@.valid(),
    {
        proof {
            use_type_invariant(self);
        }
        self.dimensions
    }

    /// The pixel format in which the screen is drawn.
    pub fn format(&self) -> (format: PixelFormat)
        ensures
            format == self@.format,
    {
        self.format
    }

    /// Takes the format a client asks for. Only true colour is taken; on
    /// anything else the screen stays as it is.
    pub fn set_pixel_format(&mut self, format: PixelFormat) -> (result: Result<(), RfbError>)
        ensures
            format.true_color_flag ==> result is Ok && final(self)@ == (ScreenView {
                format,
                ..old(self)@
            }),
            !format.true_color_flag ==> result == Err::<(), RfbError>(RfbError::Unsupported)
                && final(self)@ == old(self)@,
    {
        proof {
            use_type_invariant(&*self);
        }
        if !format.true_color_flag {
            return Err(RfbError::Unsupported);
        }
        self.format = format;
        Ok(())
    }

    /// The size of the cursor sprite, or zero by zero without one.
    pub fn pointer_size(&self) -> (size: (u16, u16))
        ensures
            size == self@.pointer_size(),
    {
        match &self.pointer {
            Some(pointer) => (pointer.width, pointer.height),
            None => (0, 0),
        }
    }

    /// The payload of the cursor rectangle: the pixels of the sprite packed
    /// under the format, then its bitmask. `None` without a sprite, or where
    /// the format cannot be packed.
    pub fn draw_cursor(&self) -> (payload: Option<Vec<u8>>)
        ensures
            match self@.cursor_payload() {
                Some(bytes) => payload matches Some(buf) && buf@ == bytes,
                None => payload is None,
            },
    {
        match &self.pointer {
            None => None,
            Some(pointer) => {
                let mut buf: Vec<u8> = Vec::new();
                match self.format.encode_pixels(pointer.pixels.as_slice(), &mut buf) {
                    Err(_) => None,
                    Ok(()) => {
                        crate::wire::push_all(&mut buf, pointer.bitmask.as_slice());
                        Some(buf)
                    },
                }
            },
        }
    }

    /// Copies the pixels of a window of the background, row by row.
    fn tile_pixels(&self, x: u32, y: u32, width: u32, height: u32) -> (pixels: Vec<Rgb>)
        requires
            x + width <= self@.dimensions.0,
            y + height <= self@.dimensions.1,
        ensures
            pixels@ == region(
                self@.background,
                self@.dimensions.0 as int,
                x as int,
                y as int,
                width as int,
                height as int,
            ),
    {
        proof {
            use_type_invariant(self);
        }
        let stride: usize = self.dimensions.0 as usize;
        let mut pixels: Vec<Rgb> = Vec::new();
        let mut j: u32 = 0;
        while j < height
            invariant
                j <= height,
                stride == self.dimensions.0,
                x + width <= stride,
                y + height <= self.dimensions.1,
                self.background@.len() == self.dimensions.0 * self.dimensions.1,
                pixels@ == region(
                    self.background@,
                    stride as int,
                    x as int,
                    y as int,
                    width as int,
                    j as int,
                ),
            decreases height - j,
        {
            assert((y + j) * stride + stride <= self.dimensions.1 * stride <= 0xffff * 0xffff)
                by (nonlinear_arith)
                requires
                    0 <= y + j < self.dimensions.1 <= 0xffff,
                    0 <= stride <= 0xffff,
            ;
            let start: usize = (y as usize + j as usize) * stride + x as usize;
            let ghost done = pixels@;
            let mut i: u32 = 0;
            while i < width
                invariant
                    i <= width,
                    start + width <= self.background@.len() <= usize::MAX,
                    pixels@ == done + self.background@.subrange(start as int, start + i),
                decreases width - i,
            {
                pixels.push(self.background[start + i as usize]);
                i += 1;
            }
            j += 1;
        }
        pixels
    }

    /// The background cut into tiles of 64 by 64 pixels, row by row of
    /// tiles, the tiles at the right and bottom edge as small as what is
    /// left: each tile as ZRLE data.
    pub fn zrle_tiles(&self) -> (result: Result<Vec<Vec<u8>>, RfbError>)
        ensures
            match self@.zrle_tiles() {
                Ok(tiles) => result matches Ok(made) && slice_views(made@) == tiles,
                Err(e) => result matches Err(r) && r == e,
            },
    {
        let screen_width: u32 = self.dimensions.0 as u32;
        let screen_height: u32 = self.dimensions.1 as u32;
        let across: u32 = (screen_width + ZRLE_TILE_SIZE - 1) / ZRLE_TILE_SIZE;
        let down: u32 = (screen_height + ZRLE_TILE_SIZE - 1) / ZRLE_TILE_SIZE;
        assert(across * down == 0 <==> across == 0 || down == 0) by (nonlinear_arith);
        if across > 0 && down > 0 && !self.format.can_compress() {
            return Err(RfbError::Unsupported);
        }
        let ghost view = self@;
        let mut tiles: Vec<Vec<u8>> = Vec::new();
        let mut tile_y: u32 = 0;
        while tile_y < down
            invariant
                tile_y <= down,
                view == self@,
                screen_width == view.dimensions.0,
                screen_height == view.dimensions.1,
                across == tiles_along(screen_width as int),
                down == tiles_along(screen_height as int),
                across > 0 && down > 0 ==> view.format.compressible(),
                slice_views(tiles@) == Seq::new(
                    (tile_y * across) as nat,
                    |k: int| view.tile(k % (across as int), k / (across as int)),
                ),
            decreases down - tile_y,
        {
            let mut tile_x: u32 = 0;
            while tile_x < across
                invariant
                    tile_x <= across,
                    tile_y < down,
                    view == self@,
                    screen_width == view.dimensions.0,
                    screen_height == view.dimensions.1,
                    across == tiles_along(screen_width as int),
                    down == tiles_along(screen_height as int),
                    across > 0 && down > 0 ==> view.format.compressible(),
                    slice_views(tiles@) == Seq::new(
                        (tile_y * across + tile_x) as nat,
                        |k: int| view.tile(k % (across as int), k / (across as int)),
                    ),
                decreases across - tile_x,
            {
                let x: u32 = tile_x * ZRLE_TILE_SIZE;
                let y: u32 = tile_y * ZRLE_TILE_SIZE;
                let width: u32 = if screen_width - x < ZRLE_TILE_SIZE {
                    screen_width - x
                } else {
                    ZRLE_TILE_SIZE
                };
                let height: u32 = if screen_height - y < ZRLE_TILE_SIZE {
                    screen_height - y
                } else {
                    ZRLE_TILE_SIZE
                };
                let mut tile: Vec<u8> = Vec::new();
                tile.push(0);
                let pixels = self.tile_pixels(x, y, width, height);
                proof {
                    use_type_invariant(self);
                    assert((y + height) * view.dimensions.0 <= view.dimensions.1
                        * view.dimensions.0) by (nonlinear_arith)
                        requires
                            y + height <= view.dimensions.1,
                            0 <= view.dimensions.0,
                    ;
                    lemma_region_len(
                        view.background,
                        view.dimensions.0 as int,
                        x as int,
                        y as int,
                        width as int,
                        height as int,
                    );
                }
                match self.format.encode_compressed_pixels(pixels.as_slice(), &mut tile) {
                    Ok(()) => {},
                    Err(e) => {
                        // The format was found fit before the first tile.
                        assert(false);
                        return Err(e);
                    },
                }
                let ghost before = tiles@;
                tiles.push(tile);
                proof {
                    let k = tile_y * across + tile_x;
                    vstd::arithmetic::div_mod::lemma_fundamental_div_mod_converse(
                        k as int,
                        across as int,
                        tile_y as int,
                        tile_x as int,
                    );
                    assert(slice_views(tiles@) =~= slice_views(before).push(tile@));
                }
                tile_x += 1;
            }
            assert(tile_y * across + across == (tile_y + 1) * across) by (nonlinear_arith);
            tile_y += 1;
        }
        assert(down * across == across * down) by (nonlinear_arith);
        Ok(tiles)
    }

    /// The background as one ZRLE frame: its tiles, written to the zlib
    /// stream of the connection one by one and flushed, as the compressed
    /// bytes that the stream puts out for them.
    ///
    /// Where the format cannot be packed the stream is not touched. A stream
    /// that fails, or has failed before, is broken from then on. The frame
    /// is drawn whenever the tiles can be made, the stream is whole and its
    /// compressor takes them.
    pub fn draw_zrle(&self, stream: &mut ZrleStream) -> (result: Result<Vec<u8>, RfbError>)
        ensures
            match self@.zrle_tiles() {
                Err(e) => result matches Err(r) && r == e && *final(stream) == *old(stream),
                Ok(tiles) => if !old(stream).broken() && frame_accepted(
                    old(stream).frames(),
                    tiles,
                ) {
                    &&& result matches Ok(block) && block@ == sync_block(
                        old(stream).frames(),
                        tiles,
                    )
                    &&& !final(stream).broken()
                    &&& final(stream).frames() == old(stream).frames().push(tiles)
                } else {
                    &&& result matches Err(e) && e == RfbError::Compression
                    &&& final(stream).broken()
                },
            },
    {
        match self.zrle_tiles() {
            Ok(tiles) => stream.compress(tiles.as_slice()),
            Err(e) => Err(e),
        }
    }

    /// The whole background packed under the format, row by row from the top.
    pub fn draw_raw(&self) -> (result: Result<Vec<u8>, RfbError>)
        ensures
            match self@.format.encoded(self@.background) {
                Ok(bytes) => result matches Ok(buf) && buf@ == bytes,
                Err(e) => result matches Err(r) && r == e,
            },
    {
        let mut buf: Vec<u8> = Vec::new();
        match self.format.encode_pixels(self.background.as_slice(), &mut buf) {
            Ok(()) => Ok(buf),
            Err(e) => Err(e),
        }
    }
}

} // verus!
