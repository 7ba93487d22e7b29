//! The pixel format a client negotiates, its 16-byte wire form, and the two
//! packers that turn RGB pixels into wire bytes under it.

use crate::error::RfbError;
use crate::wire::{be16, be32, get_be16, le16, le32, push_be16, push_be32, push_le16, push_le32, u16_from_be};
use vstd::arithmetic::power2::{lemma2_to64, lemma_pow2_adds, lemma_pow2_pos, lemma_pow2_strictly_increases, pow2};
use vstd::bits::lemma_u64_shl_is_mul;
use vstd::prelude::*;

verus! {

/// One pixel of a picture: eight bits each of red, green and blue.
#[derive(Debug, Clone, Copy, PartialEq, Eq, Structural)]
pub struct Rgb {
    pub r: u8,
    pub g: u8,
    pub b: u8,
}

/// How a pixel is laid out in the bytes sent to a client.
#[derive(Debug, Clone, Copy, PartialEq, Eq, Structural)]
pub struct PixelFormat {
    pub bits_per_pixel: u8,
    pub depth: u8,
    pub big_endian_flag: bool,
    pub true_color_flag: bool,
    pub red_max: u16,
    pub green_max: u16,
    pub blue_max: u16,
    pub red_shift: u8,
    pub green_shift: u8,
    pub blue_shift: u8,
}

/// The byte that stands for a flag on the wire.
pub open spec fn flag_byte(flag: bool) -> u8 {
    if flag {
        1
    } else {
        0
    }
}

/// A colour channel scaled from `0..=255` to `0..=max`, rounding down.
pub open spec fn scaled(channel: u8, max: u16) -> int {
    channel as int * max as int / 255
}

impl PixelFormat {
    /// 32 bits per pixel, depth 24, little-endian, true colour, eight bits per
    /// channel with red at bit 16, green at bit 8 and blue at bit 0.
    pub open spec fn spec_rgb888() -> PixelFormat {
        PixelFormat {
            bits_per_pixel: 32,
            depth: 24,
            big_endian_flag: false,
            true_color_flag: true,
            red_max: 0xff,
            green_max: 0xff,
            blue_max: 0xff,
            red_shift: 16,
            green_shift: 8,
            blue_shift: 0,
        }
    }

    /// The format in use until a client asks for another.
    #[verifier::when_used_as_spec(spec_rgb888)]
    pub fn rgb888() -> (format: PixelFormat)
        ensures
            format == PixelFormat::spec_rgb888(),
    {
        PixelFormat {
            bits_per_pixel: 32,
            depth: 24,
            big_endian_flag: false,
            true_color_flag: true,
            red_max: 0xff,
            green_max: 0xff,
            blue_max: 0xff,
            red_shift: 16,
            green_shift: 8,
            blue_shift: 0,
        }
    }

    /// True when the width is 8, 16 or 32 bits.
    pub open spec fn width_supported(self) -> bool {
        self.bits_per_pixel == 8 || self.bits_per_pixel == 16 || self.bits_per_pixel == 32
    }

    /// What parsing accepts: a supported width and a depth within it.
    pub open spec fn accepted(self) -> bool {
        self.width_supported() && self.depth <= self.bits_per_pixel
    }

    /// The 16-byte wire form: width, depth, the two flags, the three maxima
    /// big-endian, the three shifts, and three bytes of zero padding.
    pub open spec fn wire(self) -> Seq<u8> {
        seq![
            self.bits_per_pixel,
            self.depth,
            flag_byte(self.big_endian_flag),
            flag_byte(self.true_color_flag),
        ] + be16(self.red_max) + be16(self.green_max) + be16(self.blue_max) + seq![
            self.red_shift,
            self.green_shift,
            self.blue_shift,
            0u8,
            0u8,
            0u8,
        ]
    }

    /// The fields as they stand in the first 13 bytes of `bytes`, unchecked.
    pub open spec fn fields_of(bytes: Seq<u8>) -> PixelFormat {
        PixelFormat {
            bits_per_pixel: bytes[0],
            depth: bytes[1],
            big_endian_flag: bytes[2] > 0,
            true_color_flag: bytes[3] > 0,
            red_max: u16_from_be(bytes[4], bytes[5]),
            green_max: u16_from_be(bytes[6], bytes[7]),
            blue_max: u16_from_be(bytes[8], bytes[9]),
            red_shift: bytes[10],
            green_shift: bytes[11],
            blue_shift: bytes[12],
        }
    }

    /// What parsing makes of `bytes`: the fields of the first 13 bytes where
    /// they are there and accepted. Anything after them is padding.
    pub open spec fn parse(bytes: Seq<u8>) -> Result<PixelFormat, RfbError> {
        if bytes.len() >= 13 && PixelFormat::fields_of(bytes).accepted() {
            Ok(PixelFormat::fields_of(bytes))
        } else {
            Err(RfbError::InvalidFormat)
        }
    }

    /// Parses the wire form of a pixel format.
    pub fn read_from(bytes: &[u8]) -> (result: Result<PixelFormat, RfbError>)
        ensures
            result == PixelFormat::parse(bytes@),
            result is Err <==> bytes@.len() < 13 || !(bytes@[0] == 8 || bytes@[0] == 16 || bytes@[0]
                == 32) || bytes@[1] > bytes@[0],
    {
        if bytes.len() < 13 {
            return Err(RfbError::InvalidFormat);
        }
        let format = PixelFormat {
            bits_per_pixel: bytes[0],
            depth: bytes[1],
            big_endian_flag: bytes[2] > 0,
            true_color_flag: bytes[3] > 0,
            red_max: get_be16(bytes, 4),
            green_max: get_be16(bytes, 6),
            blue_max: get_be16(bytes, 8),
            red_shift: bytes[10],
            green_shift: bytes[11],
            blue_shift: bytes[12],
        };
        if !(format.bits_per_pixel == 8 || format.bits_per_pixel == 16 || format.bits_per_pixel
            == 32) {
            return Err(RfbError::InvalidFormat);
        }
        if format.depth > format.bits_per_pixel {
            return Err(RfbError::InvalidFormat);
        }
        Ok(format)
    }

    /// Writes the 16-byte wire form.
    pub fn encode(&self) -> (bytes: [u8; 16])
        ensures
            bytes@ == self.wire(),
    {
        let bytes: [u8; 16] = [
            self.bits_per_pixel,
            self.depth,
            if self.big_endian_flag { 1 } else { 0 },
            if self.true_color_flag { 1 } else { 0 },
            (self.red_max / 256) as u8,
            (self.red_max % 256) as u8,
            (self.green_max / 256) as u8,
            (self.green_max % 256) as u8,
            (self.blue_max / 256) as u8,
            (self.blue_max % 256) as u8,
            self.red_shift,
            self.green_shift,
            self.blue_shift,
            0,
            0,
            0,
        ];
        bytes
    }

    /// Whole bytes that one pixel takes on the wire.
    pub open spec fn spec_bytes_per_pixel(&self) -> usize {
        (self.bits_per_pixel / 8) as usize
    }

    /// Whole bytes that one pixel takes on the wire.
    #[verifier::when_used_as_spec(spec_bytes_per_pixel)]
    pub fn bytes_per_pixel(&self) -> (n: usize)
        ensures
            n == self.spec_bytes_per_pixel(),
    {
        self.bits_per_pixel as usize / 8
    }
}

impl PixelFormat {
    /// The pixel as a number: each channel scaled to its maximum and moved up
    /// by its shift, the three added, and the low 32 bits of the sum kept.
    pub open spec fn pixel_value(self, pixel: Rgb) -> u32 {
        ((scaled(pixel.r, self.red_max) * pow2(self.red_shift as nat) + scaled(
            pixel.g,
            self.green_max,
        ) * pow2(self.green_shift as nat) + scaled(pixel.b, self.blue_max) * pow2(
            self.blue_shift as nat,
        )) % 0x1_0000_0000) as u32
    }

    /// The bytes of one pixel: the low `bits_per_pixel` bits of its number in
    /// the byte order of the format.
    pub open spec fn pixel_bytes(self, pixel: Rgb) -> Seq<u8> {
        let value = self.pixel_value(pixel);
        if self.bits_per_pixel == 8 {
            seq![(value % 0x100) as u8]
        } else if self.bits_per_pixel == 16 {
            if self.big_endian_flag {
                be16((value % 0x1_0000) as u16)
            } else {
                le16((value % 0x1_0000) as u16)
            }
        } else if self.bits_per_pixel == 32 {
            if self.big_endian_flag {
                be32(value)
            } else {
                le32(value)
            }
        } else {
            Seq::empty()
        }
    }

    /// The bytes of `pixels`, one pixel after the other.
    pub open spec fn packed(self, pixels: Seq<Rgb>) -> Seq<u8>
        decreases pixels.len(),
    {
        if pixels.len() == 0 {
            Seq::empty()
        } else {
            self.packed(pixels.drop_last()) + self.pixel_bytes(pixels.last())
        }
    }

    /// What packing makes of `pixels`. Only true colour can be packed, and a
    /// pixel only at a width of 8, 16 or 32 bits.
    pub open spec fn encoded(self, pixels: Seq<Rgb>) -> Result<Seq<u8>, RfbError> {
        if self.true_color_flag && (pixels.len() == 0 || self.width_supported()) {
            Ok(self.packed(pixels))
        } else {
            Err(RfbError::Unsupported)
        }
    }

    /// True when the compact three-byte form applies: true colour at 32 bits
    /// per pixel with a depth of at most 24.
    pub open spec fn compact(self) -> bool {
        self.true_color_flag && self.bits_per_pixel == 32 && self.depth <= 24
    }

    /// The compact form of one pixel: its three channels, red first if the
    /// format is big-endian and blue first if not.
    pub open spec fn compact_bytes(self, pixel: Rgb) -> Seq<u8> {
        if self.big_endian_flag {
            seq![pixel.r, pixel.g, pixel.b]
        } else {
            seq![pixel.b, pixel.g, pixel.r]
        }
    }

    /// The compact forms of `pixels`, one pixel after the other.
    pub open spec fn compact_packed(self, pixels: Seq<Rgb>) -> Seq<u8>
        decreases pixels.len(),
    {
        if pixels.len() == 0 {
            Seq::empty()
        } else {
            self.compact_packed(pixels.drop_last()) + self.compact_bytes(pixels.last())
        }
    }

    /// What compact packing makes of `pixels`: the compact form where it
    /// applies, but for depths from 17 to 23, which are refused; and the
    /// plain packing where it does not.
    pub open spec fn compressed(self, pixels: Seq<Rgb>) -> Result<Seq<u8>, RfbError> {
        if self.compact() {
            if 16 < self.depth < 24 {
                Err(RfbError::Unsupported)
            } else {
                Ok(self.compact_packed(pixels))
            }
        } else {
            self.encoded(pixels)
        }
    }

    /// True when compact packing succeeds on pixels that are there.
    pub open spec fn compressible(&self) -> bool {
        if self.compact() {
            !(16 < self.depth < 24)
        } else {
            self.true_color_flag && self.width_supported()
        }
    }

    /// The bytes that compact packing gives where it succeeds.
    pub open spec fn compressed_bytes(self, pixels: Seq<Rgb>) -> Seq<u8> {
        if self.compact() {
            self.compact_packed(pixels)
        } else {
            self.packed(pixels)
        }
    }

    /// True when compact packing succeeds on pixels that are there.
    #[verifier::when_used_as_spec(compressible)]
    pub fn can_compress(&self) -> (yes: bool)
        ensures
            yes == self.compressible(),
    {
        if self.true_color_flag && self.bits_per_pixel == 32 && self.depth <= 24 {
            !(16 < self.depth && self.depth < 24)
        } else {
            self.true_color_flag && (self.bits_per_pixel == 8 || self.bits_per_pixel == 16
                || self.bits_per_pixel == 32)
        }
    }

    /// One channel scaled and shifted, as far as it falls into 32 bits.
    fn channel(value: u8, max: u16, shift: u8) -> (term: u32)
        ensures
            term == (scaled(value, max) * pow2(shift as nat)) % 0x1_0000_0000,
    {
        assert(0 <= value * max <= 255 * max) by (nonlinear_arith)
            requires
                0 <= value <= 255,
                0 <= max,
        ;
        let level: u64 = (value as u64) * (max as u64) / 255;
        if shift >= 32 {
            proof {
                lemma2_to64();
                lemma_pow2_adds(32, (shift - 32) as nat);
                let rest = pow2((shift - 32) as nat) as int;
                assert(level * pow2(shift as nat) == 0x1_0000_0000 * (level * rest))
                    by (nonlinear_arith)
                    requires
                        pow2(shift as nat) == 0x1_0000_0000 * rest,
                ;
                assert((0x1_0000_0000 * (level * rest)) % 0x1_0000_0000 == 0) by (nonlinear_arith);
            }
            0
        } else {
            proof {
                lemma2_to64();
                if shift < 31 {
                    lemma_pow2_strictly_increases(shift as nat, 31);
                }
                lemma_pow2_pos(shift as nat);
                assert(level * pow2(shift as nat) <= 0xffff * 0x8000_0000) by (nonlinear_arith)
                    requires
                        0 <= level <= 0xffff,
                        0 < pow2(shift as nat) <= 0x8000_0000,
                ;
                lemma_u64_shl_is_mul(level, shift as u64);
            }
            ((level << (shift as u64)) % 0x1_0000_0000) as u32
        }
    }

    /// The pixel as a number.
    fn value_of(&self, pixel: Rgb) -> (value: u32)
        ensures
            value == self.pixel_value(pixel),
    {
        let red = PixelFormat::channel(pixel.r, self.red_max, self.red_shift);
        let green = PixelFormat::channel(pixel.g, self.green_max, self.green_shift);
        let blue = PixelFormat::channel(pixel.b, self.blue_max, self.blue_shift);
        let sum: u64 = red as u64 + green as u64 + blue as u64;
        proof {
            let r = scaled(pixel.r, self.red_max) * pow2(self.red_shift as nat);
            let g = scaled(pixel.g, self.green_max) * pow2(self.green_shift as nat);
            let b = scaled(pixel.b, self.blue_max) * pow2(self.blue_shift as nat);
            assert((r % 0x1_0000_0000 + g % 0x1_0000_0000 + b % 0x1_0000_0000) % 0x1_0000_0000 == (r
                + g + b) % 0x1_0000_0000) by (nonlinear_arith);
        }
        (sum % 0x1_0000_0000) as u32
    }

    /// Appends the bytes of one pixel.
    fn push_pixel(&self, pixel: Rgb, writer: &mut Vec<u8>)
        requires
            self.width_supported(),
        ensures
            final(writer)@ == old(writer)@ + self.pixel_bytes(pixel),
    {
        let value = self.value_of(pixel);
        if self.bits_per_pixel == 8 {
            writer.push((value % 0x100) as u8);
        } else if self.bits_per_pixel == 16 {
            if self.big_endian_flag {
                push_be16(writer, (value % 0x1_0000) as u16);
            } else {
                push_le16(writer, (value % 0x1_0000) as u16);
            }
        } else {
            if self.big_endian_flag {
                push_be32(writer, value);
            } else {
                push_le32(writer, value);
            }
        }
    }

    /// Packs `pixels` under this format and appends the bytes to `writer`.
    /// Where the format cannot be packed, `writer` is left as it was.
    pub fn encode_pixels(&self, pixels: &[Rgb], writer: &mut Vec<u8>) -> (result: Result<
        (),
        RfbError,
    >)
        ensures
            match self.encoded(pixels@) {
                Ok(bytes) => result is Ok && final(writer)@ == old(writer)@ + bytes,
                Err(e) => result == Err::<(), RfbError>(e) && final(writer)@ == old(writer)@,
            },
    {
        if !self.true_color_flag {
            return Err(RfbError::Unsupported);
        }
        if pixels.len() > 0 && !(self.bits_per_pixel == 8 || self.bits_per_pixel == 16
            || self.bits_per_pixel == 32) {
            return Err(RfbError::Unsupported);
        }
        let mut i: usize = 0;
        while i < pixels.len()
            invariant
                i <= pixels.len(),
                pixels.len() > 0 ==> self.width_supported(),
                writer@ == old(writer)@ + self.packed(pixels@.take(i as int)),
            decreases pixels.len() - i,
        {
            self.push_pixel(pixels[i], writer);
            i += 1;
            assert(pixels@.take(i as int).drop_last() =~= pixels@.take(i - 1));
        }
        assert(pixels@.take(pixels.len() as int) =~= pixels@);
        Ok(())
    }

    /// Packs `pixels` in the compact form where the format allows it, and as
    /// [`encode_pixels`](Self::encode_pixels) does where not, and appends the
    /// bytes to `writer`. On an error `writer` is left as it was.
    pub fn encode_compressed_pixels(&self, pixels: &[Rgb], writer: &mut Vec<u8>) -> (result:
        Result<(), RfbError>)
        ensures
            match self.compressed(pixels@) {
                Ok(bytes) => result is Ok && final(writer)@ == old(writer)@ + bytes,
                Err(e) => result == Err::<(), RfbError>(e) && final(writer)@ == old(writer)@,
            },
    {
        if !self.true_color_flag || self.bits_per_pixel != 32 || self.depth > 24 {
            return self.encode_pixels(pixels, writer);
        }
        if 16 < self.depth && self.depth < 24 {
            return Err(RfbError::Unsupported);
        }
        let mut i: usize = 0;
        while i < pixels.len()
            invariant
                i <= pixels.len(),
                writer@ == old(writer)@ + self.compact_packed(pixels@.take(i as int)),
            decreases pixels.len() - i,
        {
            let pixel = pixels[i];
            if self.big_endian_flag {
                writer.push(pixel.r);
                writer.push(pixel.g);
                writer.push(pixel.b);
            } else {
                writer.push(pixel.b);
                writer.push(pixel.g);
                writer.push(pixel.r);
            }
            i += 1;
            assert(pixels@.take(i as int).drop_last() =~= pixels@.take(i - 1));
        }
        assert(pixels@.take(pixels.len() as int) =~= pixels@);
        Ok(())
    }
}

impl Default for PixelFormat {
    fn default() -> (format: PixelFormat)
        ensures
            format == PixelFormat::spec_rgb888(),
    {
        PixelFormat::rgb888()
    }
}

/// Every accepted format comes back unchanged from its own wire form, which
/// is 16 bytes long and ends in three zero bytes.
pub proof fn lemma_pixel_format_round_trip(format: PixelFormat)
    requires
        format.accepted(),
    ensures
        format.wire().len() == 16,
        format.wire()[13] == 0 && format.wire()[14] == 0 && format.wire()[15] == 0,
        PixelFormat::parse(format.wire()) == Ok::<PixelFormat, RfbError>(format),
{
}

/// Plain packing gives `bits_per_pixel / 8` bytes for each pixel, in the
/// order of the pixels.
pub proof fn lemma_packed_layout(format: PixelFormat, pixels: Seq<Rgb>, index: int, offset: int)
    requires
        format.width_supported(),
        0 <= index < pixels.len(),
        0 <= offset < format.bits_per_pixel / 8,
    ensures
        format.packed(pixels).len() == pixels.len() * (format.bits_per_pixel / 8),
        format.pixel_bytes(pixels[index]).len() == format.bits_per_pixel / 8,
        format.packed(pixels)[index * (format.bits_per_pixel / 8) + offset] == format.pixel_bytes(
            pixels[index],
        )[offset],
    decreases pixels.len(),
{
    let size = (format.bits_per_pixel / 8) as int;
    let rest = pixels.drop_last();
    lemma_packed_len(format, rest);
    assert(rest.len() * size + size == pixels.len() * size) by (nonlinear_arith)
        requires
            rest.len() + 1 == pixels.len(),
    ;
    if index < pixels.len() - 1 {
        lemma_packed_layout(format, rest, index, offset);
        assert(index * size + offset < rest.len() * size) by (nonlinear_arith)
            requires
                0 <= index < rest.len(),
                0 <= offset < size,
        ;
    }
}

/// Plain packing gives `bits_per_pixel / 8` bytes for each pixel.
pub proof fn lemma_packed_len(format: PixelFormat, pixels: Seq<Rgb>)
    requires
        format.width_supported(),
    ensures
        format.packed(pixels).len() == pixels.len() * (format.bits_per_pixel / 8),
    decreases pixels.len(),
{
    let size = (format.bits_per_pixel / 8) as int;
    if pixels.len() > 0 {
        lemma_packed_len(format, pixels.drop_last());
        assert((pixels.len() - 1) * size + size == pixels.len() * size) by (nonlinear_arith);
    } else {
        assert(pixels.len() * size == 0) by (nonlinear_arith)
            requires
                pixels.len() == 0,
        ;
    }
}

/// Compact packing gives three bytes for each pixel, in the order of the
/// pixels, so that the picture can be read back from them.
pub proof fn lemma_compact_layout(format: PixelFormat, pixels: Seq<Rgb>, index: int, offset: int)
    requires
        0 <= index < pixels.len(),
        0 <= offset < 3,
    ensures
        format.compact_packed(pixels).len() == 3 * pixels.len(),
        format.compact_packed(pixels)[3 * index + offset] == format.compact_bytes(
            pixels[index],
        )[offset],
    decreases pixels.len(),
{
    let rest = pixels.drop_last();
    lemma_compact_len(format, rest);
    if index < pixels.len() - 1 {
        lemma_compact_layout(format, rest, index, offset);
    }
}

/// Compact packing gives three bytes for each pixel.
pub proof fn lemma_compact_len(format: PixelFormat, pixels: Seq<Rgb>)
    ensures
        format.compact_packed(pixels).len() == 3 * pixels.len(),
    decreases pixels.len(),
{
    if pixels.len() > 0 {
        lemma_compact_len(format, pixels.drop_last());
    }
}

/// Under RGB888 a pixel is four bytes: blue, green, red and zero.
pub proof fn lemma_rgb888_bytes(pixel: Rgb)
    ensures
        PixelFormat::spec_rgb888().pixel_value(pixel) == pixel.r * 0x1_0000 + pixel.g * 0x100
            + pixel.b,
        PixelFormat::spec_rgb888().pixel_bytes(pixel) == seq![pixel.b, pixel.g, pixel.r, 0u8],
{
    lemma_rgb888_value(pixel);
    lemma_base_256(pixel.r as int, pixel.g as int, pixel.b as int);
}

/// Under RGB888 the channels stand side by side in the low 24 bits.
proof fn lemma_rgb888_value(pixel: Rgb)
    ensures
        PixelFormat::spec_rgb888().pixel_value(pixel) == pixel.r * 0x1_0000 + pixel.g * 0x100
            + pixel.b,
{
    lemma2_to64();
    assert(scaled(pixel.r, 0xff) * pow2(16) == pixel.r * 0x1_0000);
    assert(scaled(pixel.g, 0xff) * pow2(8) == pixel.g * 0x100);
    assert(scaled(pixel.b, 0xff) * pow2(0) == pixel.b);
    let sum = pixel.r * 0x1_0000 + pixel.g * 0x100 + pixel.b;
    assert(0 <= sum < 0x100_0000);
    assert(sum % 0x1_0000_0000 == sum);
}

/// The digits of a number in base 256 can be read back from it.
proof fn lemma_base_256(high: int, middle: int, low: int)
    requires
        0 <= high < 256,
        0 <= middle < 256,
        0 <= low < 256,
    ensures
        ({
            let value = high * 0x1_0000 + middle * 0x100 + low;
            &&& value % 256 == low
            &&& value / 0x100 % 256 == middle
            &&& value / 0x1_0000 % 256 == high
            &&& value / 0x100_0000 == 0
        }),
{
    let value = high * 0x1_0000 + middle * 0x100 + low;
    vstd::arithmetic::div_mod::lemma_fundamental_div_mod_converse(
        value,
        0x100,
        high * 0x100 + middle,
        low,
    );
    vstd::arithmetic::div_mod::lemma_fundamental_div_mod_converse(
        high * 0x100 + middle,
        0x100,
        high,
        middle,
    );
    vstd::arithmetic::div_mod::lemma_fundamental_div_mod_converse(
        value,
        0x1_0000,
        high,
        middle * 0x100 + low,
    );
    vstd::arithmetic::div_mod::lemma_fundamental_div_mod_converse(high, 0x100, 0, high);
    vstd::arithmetic::div_mod::lemma_fundamental_div_mod_converse(value, 0x100_0000, 0, value);
}

/// Compact packing of pixels that are there succeeds exactly on the formats
/// that `compressible` names, whatever the pixels are.
pub proof fn lemma_compressed(format: PixelFormat, pixels: Seq<Rgb>)
    requires
        pixels.len() > 0,
    ensures
        format.compressed(pixels) == if format.compressible() {
            Ok::<Seq<u8>, RfbError>(format.compressed_bytes(pixels))
        } else {
            Err::<Seq<u8>, RfbError>(RfbError::Unsupported)
        },
{
}

/// Parsing fails on every width other than 8, 16 and 32 bits and on every
/// depth above the width, whatever the other bytes hold.
pub proof fn lemma_parse_rejects(bytes: Seq<u8>)
    requires
        !(bytes[0] == 8 || bytes[0] == 16 || bytes[0] == 32) || bytes[1] > bytes[0],
    ensures
        PixelFormat::parse(bytes) == Err::<PixelFormat, RfbError>(RfbError::InvalidFormat),
{
}

} // verus!
