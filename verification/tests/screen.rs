use flate2::write::ZlibDecoder;
use rfb_display::error::RfbError;
use rfb_display::pixel::{PixelFormat, Rgb};
use rfb_display::screen::{CursorPicture, Picture, Screen};
use rfb_display::zlib::ZrleStream;
use std::io::Write;

fn colour(x: u32, y: u32) -> Rgb {
    Rgb { r: (x * 3 + 1) as u8, g: (y * 5 + 2) as u8, b: (x + y) as u8 }
}

fn picture(width: u32, height: u32) -> Picture {
    let mut pixels = Vec::new();
    for y in 0..height {
        for x in 0..width {
            pixels.push(colour(x, y));
        }
    }
    Picture { width, height, pixels }
}

fn cursor(width: u32, height: u32, alpha: Vec<u8>) -> CursorPicture {
    let mut pixels = Vec::new();
    for y in 0..height {
        for x in 0..width {
            pixels.push(Rgb { r: x as u8, g: y as u8, b: 0xee });
        }
    }
    CursorPicture { width, height, pixels, alpha }
}

fn screen(width: u32, height: u32) -> Screen {
    Screen::create(picture(width, height), None).unwrap()
}

fn refused(result: Result<Screen, RfbError>) -> RfbError {
    match result {
        Ok(_) => panic!("the screen was made"),
        Err(e) => e,
    }
}

fn inflate(decoder: &mut ZlibDecoder<Vec<u8>>, block: &[u8]) -> Vec<u8> {
    decoder.write_all(block).unwrap();
    decoder.flush().unwrap();
    std::mem::take(decoder.get_mut())
}

fn expected_tiles(width: u32, height: u32, big_endian: bool) -> Vec<u8> {
    let mut expected = Vec::new();
    let mut y = 0;
    while y < height {
        let tile_height = (height - y).min(64);
        let mut x = 0;
        while x < width {
            let tile_width = (width - x).min(64);
            expected.push(0);
            for row in y..y + tile_height {
                for column in x..x + tile_width {
                    let pixel = colour(column, row);
                    if big_endian {
                        expected.extend_from_slice(&[pixel.r, pixel.g, pixel.b]);
                    } else {
                        expected.extend_from_slice(&[pixel.b, pixel.g, pixel.r]);
                    }
                }
            }
            x += 64;
        }
        y += 64;
    }
    expected
}

#[test]
fn a_screen_has_the_dimensions_of_its_background() {
    let screen = screen(100, 70);
    assert_eq!(screen.dimensions(), (100, 70));
    assert_eq!(screen.format(), PixelFormat::rgb888());
    assert_eq!(screen.pointer_size(), (0, 0));
    assert_eq!(screen.draw_cursor(), None);
}

#[test]
fn pictures_wider_or_taller_than_65535_are_refused() {
    let wide = Picture { width: 65536, height: 0, pixels: vec![] };
    assert_eq!(refused(Screen::create(wide, None)), RfbError::ConfigError);
    let tall = Picture { width: 0, height: 65536, pixels: vec![] };
    assert_eq!(refused(Screen::create(tall, None)), RfbError::ConfigError);
    let huge = Picture { width: u32::MAX, height: u32::MAX, pixels: vec![] };
    assert_eq!(refused(Screen::create(huge, None)), RfbError::ConfigError);
    let widest = Picture { width: 65535, height: 1, pixels: vec![Rgb { r: 0, g: 0, b: 0 }; 65535] };
    assert_eq!(Screen::create(widest, None).unwrap().dimensions(), (65535, 1));
}

#[test]
fn pictures_need_a_pixel_for_every_place() {
    let short = Picture { width: 2, height: 2, pixels: vec![Rgb { r: 0, g: 0, b: 0 }; 3] };
    assert_eq!(refused(Screen::create(short, None)), RfbError::ConfigError);
    let long = Picture { width: 2, height: 2, pixels: vec![Rgb { r: 0, g: 0, b: 0 }; 5] };
    assert_eq!(refused(Screen::create(long, None)), RfbError::ConfigError);
}

#[test]
fn cursor_pictures_are_held_to_the_same_limits() {
    let wide = CursorPicture { width: 65536, height: 0, pixels: vec![], alpha: vec![] };
    assert_eq!(refused(Screen::create(picture(1, 1), Some(wide))), RfbError::ConfigError);
    let tall = CursorPicture { width: 0, height: 65536, pixels: vec![], alpha: vec![] };
    assert_eq!(refused(Screen::create(picture(1, 1), Some(tall))), RfbError::ConfigError);
    let mut no_alpha = cursor(2, 2, vec![0; 4]);
    no_alpha.alpha.pop();
    assert_eq!(refused(Screen::create(picture(1, 1), Some(no_alpha))), RfbError::ConfigError);
    let mut no_colour = cursor(2, 2, vec![0; 4]);
    no_colour.pixels.pop();
    assert_eq!(refused(Screen::create(picture(1, 1), Some(no_colour))), RfbError::ConfigError);
}

#[test]
fn an_empty_picture_makes_an_empty_screen() {
    let screen = Screen::create(Picture { width: 0, height: 0, pixels: vec![] }, None).unwrap();
    assert_eq!(screen.dimensions(), (0, 0));
    assert_eq!(screen.draw_raw(), Ok(vec![]));
}

#[test]
fn draw_raw_packs_the_background_row_by_row() {
    let screen = screen(3, 2);
    let mut expected = Vec::new();
    for y in 0..2 {
        for x in 0..3 {
            let pixel = colour(x, y);
            expected.extend_from_slice(&[pixel.b, pixel.g, pixel.r, 0]);
        }
    }
    assert_eq!(screen.draw_raw(), Ok(expected));
}

#[test]
fn draw_raw_follows_the_pixel_format() {
    let mut screen = screen(2, 1);
    let format = PixelFormat {
        bits_per_pixel: 16,
        depth: 16,
        big_endian_flag: true,
        true_color_flag: true,
        red_max: 31,
        green_max: 63,
        blue_max: 31,
        red_shift: 11,
        green_shift: 5,
        blue_shift: 0,
    };
    assert_eq!(screen.set_pixel_format(format), Ok(()));
    assert_eq!(screen.format(), format);
    let mut expected = Vec::new();
    for x in 0..2 {
        let pixel = colour(x, 0);
        let value = ((pixel.r as u32 * 31 / 255) << 11)
            | ((pixel.g as u32 * 63 / 255) << 5)
            | (pixel.b as u32 * 31 / 255);
        expected.extend_from_slice(&(value as u16).to_be_bytes());
    }
    assert_eq!(screen.draw_raw(), Ok(expected));
}

#[test]
fn only_true_colour_formats_are_taken() {
    let mut screen = screen(1, 1);
    let palette = PixelFormat { true_color_flag: false, bits_per_pixel: 8, ..PixelFormat::rgb888() };
    assert_eq!(screen.set_pixel_format(palette), Err(RfbError::Unsupported));
    assert_eq!(screen.format(), PixelFormat::rgb888());
    assert_eq!(screen.draw_raw().unwrap().len(), 4);
}

#[test]
fn a_format_of_unsupported_width_cannot_be_drawn() {
    let mut screen = screen(1, 1);
    let odd = PixelFormat { bits_per_pixel: 24, ..PixelFormat::rgb888() };
    assert_eq!(screen.set_pixel_format(odd), Ok(()));
    assert_eq!(screen.draw_raw(), Err(RfbError::Unsupported));
    let mut stream = ZrleStream::new();
    assert_eq!(screen.draw_zrle(&mut stream), Err(RfbError::Unsupported));
    assert!(!stream.is_broken());
}

#[test]
fn cursor_payload_is_pixels_then_bitmask() {
    let alpha: Vec<u8> = (0..256u32).map(|i| if i % 3 == 0 { 0xff } else { 0 }).collect();
    let sprite = cursor(16, 16, alpha.clone());
    let colours = sprite.pixels.clone();
    let screen = Screen::create(picture(4, 4), Some(sprite)).unwrap();
    assert_eq!(screen.pointer_size(), (16, 16));
    let payload = screen.draw_cursor().unwrap();
    assert_eq!(payload.len(), 16 * 16 * 4 + 16 * 2);
    for (i, pixel) in colours.iter().enumerate() {
        assert_eq!(&payload[4 * i..4 * i + 4], &[pixel.b, pixel.g, pixel.r, 0]);
    }
    let mask = &payload[16 * 16 * 4..];
    for row in 0..16 {
        for column in 0..16 {
            let byte = mask[row * 2 + column / 8];
            let bit = byte >> (7 - column % 8) & 1;
            assert_eq!(bit == 1, alpha[row * 16 + column] > 0x80);
        }
    }
}

#[test]
fn bitmask_bit_is_set_above_half_opacity() {
    let alpha = vec![0x00, 0x7f, 0x80, 0x81, 0xff, 0x80, 0x81, 0x00];
    let screen = Screen::create(picture(1, 1), Some(cursor(8, 1, alpha))).unwrap();
    let payload = screen.draw_cursor().unwrap();
    assert_eq!(payload.len(), 8 * 4 + 1);
    assert_eq!(payload[32], 0b0001_1010);
}

#[test]
fn bitmask_rows_are_padded_with_zero_bits() {
    let screen = Screen::create(picture(1, 1), Some(cursor(3, 2, vec![0xff; 6]))).unwrap();
    let payload = screen.draw_cursor().unwrap();
    assert_eq!(&payload[3 * 2 * 4..], &[0b1110_0000, 0b1110_0000]);

    let alpha = vec![0xff, 0, 0, 0, 0, 0, 0, 0, 0, 0xff, 0xff, 0, 0, 0, 0, 0, 0, 0, 0xff, 0];
    let screen = Screen::create(picture(1, 1), Some(cursor(10, 2, alpha))).unwrap();
    let payload = screen.draw_cursor().unwrap();
    assert_eq!(
        &payload[10 * 2 * 4..],
        &[0b1000_0000, 0b0100_0000, 0b1000_0000, 0b1000_0000]
    );
}

#[test]
fn bitmask_has_a_whole_number_of_bytes_for_each_row() {
    for width in [1u32, 7, 8, 9, 16, 17] {
        let height = 3;
        let alpha = vec![0xff; (width * height) as usize];
        let screen = Screen::create(picture(1, 1), Some(cursor(width, height, alpha))).unwrap();
        let payload = screen.draw_cursor().unwrap();
        let row_bytes = ((width + 7) / 8) as usize;
        assert_eq!(payload.len(), (width * height * 4) as usize + row_bytes * height as usize);
    }
}

#[test]
fn a_cursor_without_pixels_has_an_empty_payload() {
    let sprite = CursorPicture { width: 0, height: 5, pixels: vec![], alpha: vec![] };
    let screen = Screen::create(picture(1, 1), Some(sprite)).unwrap();
    assert_eq!(screen.pointer_size(), (0, 5));
    assert_eq!(screen.draw_cursor(), Some(vec![]));
}

#[test]
fn no_cursor_is_drawn_where_the_format_cannot_be_packed() {
    let mut screen = Screen::create(picture(1, 1), Some(cursor(2, 2, vec![0xff; 4]))).unwrap();
    assert!(screen.draw_cursor().is_some());
    let odd = PixelFormat { bits_per_pixel: 24, ..PixelFormat::rgb888() };
    assert_eq!(screen.set_pixel_format(odd), Ok(()));
    assert_eq!(screen.draw_cursor(), None);
}

#[test]
fn copies_share_the_picture_and_keep_their_own_format() {
    let first = Screen::create(picture(5, 4), Some(cursor(2, 2, vec![0xff; 4]))).unwrap();
    let mut second = first.clone();
    assert_eq!(second.dimensions(), (5, 4));
    assert_eq!(second.pointer_size(), (2, 2));
    assert_eq!(second.draw_raw(), first.draw_raw());
    assert_eq!(second.draw_cursor(), first.draw_cursor());
    let big_endian = PixelFormat { big_endian_flag: true, ..PixelFormat::rgb888() };
    assert_eq!(second.set_pixel_format(big_endian), Ok(()));
    assert_eq!(first.format(), PixelFormat::rgb888());
    assert_eq!(second.format(), big_endian);
    assert_ne!(second.draw_raw(), first.draw_raw());
}

#[test]
fn zrle_tiles_a_100_by_70_screen_in_four() {
    let screen = screen(100, 70);
    let mut stream = ZrleStream::new();
    let block = screen.draw_zrle(&mut stream).unwrap();
    assert!(!stream.is_broken());
    let mut decoder = ZlibDecoder::new(Vec::new());
    let data = inflate(&mut decoder, &block);
    assert_eq!(data.len(), 4 + 3 * 100 * 70);
    assert_eq!(data, expected_tiles(100, 70, false));
    let sizes = [(64usize, 64usize), (36, 64), (64, 6), (36, 6)];
    let mut at = 0;
    for (width, height) in sizes {
        assert_eq!(data[at], 0);
        at += 1 + 3 * width * height;
    }
    assert_eq!(at, data.len());
    let first = colour(0, 0);
    assert_eq!(&data[1..4], &[first.b, first.g, first.r]);
    let second_tile = 1 + 3 * 64 * 64;
    let corner = colour(64, 0);
    assert_eq!(&data[second_tile + 1..second_tile + 4], &[corner.b, corner.g, corner.r]);
}

#[test]
fn zrle_tile_counts_follow_the_dimensions() {
    for (width, height) in [(1u32, 1u32), (64, 64), (65, 64), (64, 65), (128, 1), (129, 130), (200, 3)] {
        let screen = screen(width, height);
        let mut stream = ZrleStream::new();
        let block = screen.draw_zrle(&mut stream).unwrap();
        let mut decoder = ZlibDecoder::new(Vec::new());
        let data = inflate(&mut decoder, &block);
        let tiles = ((width + 63) / 64) * ((height + 63) / 64);
        assert_eq!(data.len() as u32, tiles + 3 * width * height);
        assert_eq!(data, expected_tiles(width, height, false));
    }
}

#[test]
fn zrle_follows_the_byte_order_of_the_format() {
    let mut screen = screen(70, 3);
    let big_endian = PixelFormat { big_endian_flag: true, ..PixelFormat::rgb888() };
    assert_eq!(screen.set_pixel_format(big_endian), Ok(()));
    let mut stream = ZrleStream::new();
    let block = screen.draw_zrle(&mut stream).unwrap();
    let mut decoder = ZlibDecoder::new(Vec::new());
    assert_eq!(inflate(&mut decoder, &block), expected_tiles(70, 3, true));
}

#[test]
fn zrle_falls_back_to_plain_pixels_for_narrow_formats() {
    let mut screen = screen(2, 1);
    let format = PixelFormat { bits_per_pixel: 8, depth: 8, ..PixelFormat::rgb888() };
    assert_eq!(screen.set_pixel_format(format), Ok(()));
    let mut stream = ZrleStream::new();
    let block = screen.draw_zrle(&mut stream).unwrap();
    let mut decoder = ZlibDecoder::new(Vec::new());
    assert_eq!(inflate(&mut decoder, &block), vec![0, colour(0, 0).b, colour(1, 0).b]);
}

#[test]
fn zrle_refuses_depths_between_16_and_24_and_leaves_the_stream() {
    let mut screen = screen(2, 2);
    let mut stream = ZrleStream::new();
    let first = screen.draw_zrle(&mut stream).unwrap();
    let format = PixelFormat { depth: 20, ..PixelFormat::rgb888() };
    assert_eq!(screen.set_pixel_format(format), Ok(()));
    assert_eq!(screen.draw_zrle(&mut stream), Err(RfbError::Unsupported));
    assert!(!stream.is_broken());
    assert_eq!(screen.set_pixel_format(PixelFormat::rgb888()), Ok(()));
    let second = screen.draw_zrle(&mut stream).unwrap();
    let mut decoder = ZlibDecoder::new(Vec::new());
    assert_eq!(inflate(&mut decoder, &first), expected_tiles(2, 2, false));
    assert_eq!(inflate(&mut decoder, &second), expected_tiles(2, 2, false));
}

#[test]
fn zrle_of_an_empty_screen_has_no_tiles() {
    let empty = Screen::create(Picture { width: 0, height: 9, pixels: vec![] }, None).unwrap();
    let mut stream = ZrleStream::new();
    let block = empty.draw_zrle(&mut stream).unwrap();
    let mut decoder = ZlibDecoder::new(Vec::new());
    assert_eq!(inflate(&mut decoder, &block), Vec::<u8>::new());
}

#[test]
fn zrle_outputs_of_a_connection_form_one_zlib_stream() {
    let screen = screen(100, 70);
    let mut stream = ZrleStream::new();
    let first = screen.draw_zrle(&mut stream).unwrap();
    let second = screen.draw_zrle(&mut stream).unwrap();
    let third = screen.draw_zrle(&mut stream).unwrap();
    assert_eq!(&first[..2], &[0x78, 0x9c]);
    assert_ne!(first, second);
    assert!(second.len() < first.len());

    let mut decoder = ZlibDecoder::new(Vec::new());
    assert_eq!(inflate(&mut decoder, &first), expected_tiles(100, 70, false));
    assert_eq!(inflate(&mut decoder, &second), expected_tiles(100, 70, false));
    assert_eq!(inflate(&mut decoder, &third), expected_tiles(100, 70, false));

    let mut whole = first.clone();
    whole.extend_from_slice(&second);
    whole.extend_from_slice(&third);
    let mut decoder = ZlibDecoder::new(Vec::new());
    let mut expected = expected_tiles(100, 70, false);
    expected.extend_from_slice(&expected_tiles(100, 70, false));
    expected.extend_from_slice(&expected_tiles(100, 70, false));
    assert_eq!(inflate(&mut decoder, &whole), expected);
}

#[test]
fn every_zrle_block_ends_at_a_sync_point() {
    let screen = screen(10, 10);
    let mut stream = ZrleStream::new();
    for _ in 0..3 {
        let block = screen.draw_zrle(&mut stream).unwrap();
        assert_eq!(&block[block.len() - 4..], &[0x00, 0x00, 0xff, 0xff]);
    }
}

#[test]
fn streams_of_two_connections_are_apart() {
    let screen = screen(20, 20);
    let mut one = ZrleStream::new();
    let mut other = ZrleStream::new();
    let first = screen.draw_zrle(&mut one).unwrap();
    let second = screen.draw_zrle(&mut one).unwrap();
    let fresh = screen.draw_zrle(&mut other).unwrap();
    assert_eq!(fresh, first);
    assert_ne!(fresh, second);
}

#[test]
fn tiles_of_a_100_by_70_screen() {
    let tiles = screen(100, 70).zrle_tiles().unwrap();
    assert_eq!(tiles.len(), 4);
    let sizes = [(64usize, 64usize), (36, 64), (64, 6), (36, 6)];
    for (tile, (width, height)) in tiles.iter().zip(sizes) {
        assert_eq!(tile.len(), 1 + 3 * width * height);
        assert_eq!(tile[0], 0);
    }
    let corner = colour(64, 64);
    assert_eq!(&tiles[3][1..4], &[corner.b, corner.g, corner.r]);
    let last = colour(99, 69);
    let end = tiles[3].len();
    assert_eq!(&tiles[3][end - 3..], &[last.b, last.g, last.r]);
    let second_row = colour(64, 1);
    assert_eq!(&tiles[1][1 + 3 * 36..4 + 3 * 36], &[second_row.b, second_row.g, second_row.r]);
    let joined: Vec<u8> = tiles.concat();
    assert_eq!(joined, expected_tiles(100, 70, false));
}

#[test]
fn tiles_are_as_small_as_what_is_left() {
    for (width, height, across, down) in [(1u32, 1u32, 1usize, 1usize), (64, 64, 1, 1), (65, 1, 2, 1), (1, 65, 1, 2), (128, 129, 2, 3), (0, 7, 0, 1), (7, 0, 1, 0)] {
        let tiles = screen(width, height).zrle_tiles().unwrap();
        assert_eq!(tiles.len(), across * down);
        for (k, tile) in tiles.iter().enumerate() {
            let tile_width = (width - 64 * (k % across) as u32).min(64) as usize;
            let tile_height = (height - 64 * (k / across) as u32).min(64) as usize;
            assert_eq!(tile.len(), 1 + 3 * tile_width * tile_height);
            assert_eq!(tile[0], 0);
        }
    }
}

#[test]
fn tiles_cannot_be_made_at_depths_between_16_and_24() {
    let mut screen = screen(2, 2);
    let format = PixelFormat { depth: 23, ..PixelFormat::rgb888() };
    assert_eq!(screen.set_pixel_format(format), Ok(()));
    assert_eq!(screen.zrle_tiles(), Err(RfbError::Unsupported));
    let empty = Screen::create(Picture { width: 0, height: 0, pixels: vec![] }, None);
    let mut empty = empty.unwrap();
    assert_eq!(empty.set_pixel_format(format), Ok(()));
    assert_eq!(empty.zrle_tiles(), Ok(vec![]));
}

#[test]
fn a_stream_compresses_what_it_is_given() {
    let mut stream = ZrleStream::new();
    let mut decoder = ZlibDecoder::new(Vec::new());
    let first = stream.compress(&[b"hello".to_vec(), b", ".to_vec(), b"world".to_vec()]).unwrap();
    assert_ne!(first, b"hello, world".to_vec());
    assert_eq!(inflate(&mut decoder, &first), b"hello, world".to_vec());
    let second = stream.compress(&[vec![7; 10_000]]).unwrap();
    assert!(second.len() < 200);
    assert_eq!(inflate(&mut decoder, &second), vec![7; 10_000]);
    let third = stream.compress(&[]).unwrap();
    assert_eq!(inflate(&mut decoder, &third), Vec::<u8>::new());
    let fourth = stream.compress(&[vec![], b"end".to_vec()]).unwrap();
    assert_eq!(inflate(&mut decoder, &fourth), b"end".to_vec());
    assert!(!stream.is_broken());
}

#[test]
fn a_stream_hands_out_each_block_once() {
    let mut stream = ZrleStream::new();
    let first = stream.compress(&[vec![1, 2, 3]]).unwrap();
    let second = stream.compress(&[vec![1, 2, 3]]).unwrap();
    assert_eq!(&first[..2], &[0x78, 0x9c]);
    assert_ne!(&second[..2], &[0x78, 0x9c]);
    let mut decoder = ZlibDecoder::new(Vec::new());
    let mut both = first;
    both.extend_from_slice(&second);
    assert_eq!(inflate(&mut decoder, &both), vec![1, 2, 3, 1, 2, 3]);
}

#[test]
fn equal_histories_give_equal_blocks() {
    let mut one = ZrleStream::new();
    let mut other = ZrleStream::new();
    for round in 0..3u8 {
        let slices = vec![vec![round; 100], vec![round + 1; 50]];
        assert_eq!(one.compress(&slices), other.compress(&slices));
    }
}

#[test]
fn large_frames_pass_through_the_stream_whole() {
    let mut noise = Vec::new();
    let mut state = 0x2545_f491u32;
    for _ in 0..300_000 {
        state ^= state << 13;
        state ^= state >> 17;
        state ^= state << 5;
        noise.push((state >> 11) as u8);
    }
    let slices: Vec<Vec<u8>> = noise.chunks(12_289).map(|chunk| chunk.to_vec()).collect();
    let mut stream = ZrleStream::new();
    let mut decoder = ZlibDecoder::new(Vec::new());
    for _ in 0..3 {
        let block = stream.compress(&slices).unwrap();
        assert_eq!(inflate(&mut decoder, &block), noise);
    }
}
