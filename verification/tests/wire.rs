use byteorder_lite::{ReadBytesExt, WriteBytesExt, BE, LE};
use rfb_display::encoding::Encoding;
use rfb_display::frame::{write_frame, FrameRectangle};
use rfb_display::handshake::{handshake, HandshakeState};
use rfb_display::message::{read_message, ClientMessage, Reading};
use rfb_display::pixel::{PixelFormat, Rgb};

fn formats() -> Vec<PixelFormat> {
    let mut formats = Vec::new();
    for (bits_per_pixel, depth) in [(8u8, 8u8), (16, 15), (16, 16), (32, 24), (32, 32)] {
        for big_endian_flag in [false, true] {
            formats.push(PixelFormat {
                bits_per_pixel,
                depth,
                big_endian_flag,
                true_color_flag: true,
                red_max: 0x01ff,
                green_max: 0x8001,
                blue_max: 0x00fe,
                red_shift: 20,
                green_shift: 3,
                blue_shift: 0,
            });
        }
    }
    formats
}

#[test]
fn pixel_format_bytes_are_those_of_a_big_endian_writer() {
    for format in formats() {
        let mut expected: Vec<u8> = Vec::new();
        expected.write_u8(format.bits_per_pixel).unwrap();
        expected.write_u8(format.depth).unwrap();
        expected.write_u8(format.big_endian_flag.into()).unwrap();
        expected.write_u8(format.true_color_flag.into()).unwrap();
        expected.write_u16::<BE>(format.red_max).unwrap();
        expected.write_u16::<BE>(format.green_max).unwrap();
        expected.write_u16::<BE>(format.blue_max).unwrap();
        expected.write_u8(format.red_shift).unwrap();
        expected.write_u8(format.green_shift).unwrap();
        expected.write_u8(format.blue_shift).unwrap();
        expected.extend_from_slice(&[0, 0, 0]);
        assert_eq!(format.encode().to_vec(), expected);
    }
}

#[test]
fn pixel_format_is_parsed_as_a_big_endian_reader_parses_it() {
    let bytes: [u8; 16] = [16, 9, 5, 0, 0xab, 0xcd, 0x00, 0x01, 0xff, 0x00, 7, 8, 9, 1, 2, 3];
    let mut reader = &bytes[..];
    let expected = PixelFormat {
        bits_per_pixel: reader.read_u8().unwrap(),
        depth: reader.read_u8().unwrap(),
        big_endian_flag: reader.read_u8().unwrap() > 0,
        true_color_flag: reader.read_u8().unwrap() > 0,
        red_max: reader.read_u16::<BE>().unwrap(),
        green_max: reader.read_u16::<BE>().unwrap(),
        blue_max: reader.read_u16::<BE>().unwrap(),
        red_shift: reader.read_u8().unwrap(),
        green_shift: reader.read_u8().unwrap(),
        blue_shift: reader.read_u8().unwrap(),
    };
    assert_eq!(PixelFormat::read_from(&bytes), Ok(expected));
}

#[test]
fn pixels_are_written_in_the_byte_order_of_the_format() {
    let pixels = [Rgb { r: 0x12, g: 0x9a, b: 0xf0 }, Rgb { r: 0xff, g: 0x00, b: 0x7f }];
    for format in formats() {
        let mut expected: Vec<u8> = Vec::new();
        for pixel in pixels {
            let channels = [
                (pixel.r, format.red_max, format.red_shift),
                (pixel.g, format.green_max, format.green_shift),
                (pixel.b, format.blue_max, format.blue_shift),
            ];
            let mut value = 0u32;
            for (channel, max, shift) in channels {
                value = value.wrapping_add((channel as u32 * max as u32 / 0xff) << shift);
            }
            match (format.bits_per_pixel, format.big_endian_flag) {
                (8, _) => expected.write_u8(value as u8).unwrap(),
                (16, true) => expected.write_u16::<BE>(value as u16).unwrap(),
                (16, false) => expected.write_u16::<LE>(value as u16).unwrap(),
                (32, true) => expected.write_u32::<BE>(value).unwrap(),
                (32, false) => expected.write_u32::<LE>(value).unwrap(),
                _ => unreachable!(),
            }
        }
        let mut out = Vec::new();
        assert_eq!(format.encode_pixels(&pixels, &mut out), Ok(()));
        assert_eq!(out, expected);
    }
}

#[test]
fn frame_numbers_are_those_of_a_big_endian_writer() {
    let rectangles = [
        FrameRectangle::new_zrle_frame((0x1234, 0xfffe), vec![1; 300]),
        FrameRectangle::new_cursor((0x0101, 0x8000), vec![2, 3]),
        FrameRectangle { position: (7, 9), size: (1, 2), encoding: Encoding::Other(-2), buf: vec![] },
    ];
    let mut expected: Vec<u8> = Vec::new();
    expected.write_u16::<BE>(0).unwrap();
    expected.write_u16::<BE>(3).unwrap();
    for rect in &rectangles {
        expected.write_u16::<BE>(rect.position.0).unwrap();
        expected.write_u16::<BE>(rect.position.1).unwrap();
        expected.write_u16::<BE>(rect.size.0).unwrap();
        expected.write_u16::<BE>(rect.size.1).unwrap();
        expected.write_i32::<BE>(rect.encoding.code()).unwrap();
        if rect.encoding == Encoding::Zrle {
            expected.write_u32::<BE>(rect.buf.len() as u32).unwrap();
        }
        expected.extend_from_slice(&rect.buf);
    }
    assert_eq!(write_frame(&rectangles), Ok(expected));
}

#[test]
fn encoding_codes_are_read_as_a_big_endian_reader_reads_them() {
    let codes = [0i32, 16, -239, 1, -1, i32::MIN, i32::MAX, 0x0102_0304, -0x0102_0304];
    let mut wire: Vec<u8> = vec![2, 0];
    wire.write_u16::<BE>(codes.len() as u16).unwrap();
    for code in codes {
        wire.write_i32::<BE>(code).unwrap();
    }
    let mut reader = &wire[4..];
    let mut expected = Vec::new();
    for _ in 0..codes.len() {
        expected.push(Encoding::from_code(reader.read_i32::<BE>().unwrap()));
    }
    match read_message(&wire, false) {
        Ok(Reading::Message(ClientMessage::SetEncodings(encodings))) => {
            assert_eq!(encodings, expected)
        },
        other => panic!("unexpected answer {:?}", other),
    }
}

#[test]
fn update_requests_are_read_as_a_big_endian_reader_reads_them() {
    let wire = [3u8, 0, 0x12, 0x34, 0xfe, 0xdc, 0x00, 0xff, 0xff, 0x00];
    let mut reader = &wire[2..];
    let expected_position = (reader.read_u16::<BE>().unwrap(), reader.read_u16::<BE>().unwrap());
    let expected_size = (reader.read_u16::<BE>().unwrap(), reader.read_u16::<BE>().unwrap());
    match read_message(&wire, false) {
        Ok(Reading::Message(ClientMessage::FramebufferUpdateRequest { position, size, .. })) => {
            assert_eq!(position, expected_position);
            assert_eq!(size, expected_size);
        },
        other => panic!("unexpected answer {:?}", other),
    }
}

#[test]
fn server_init_numbers_are_those_of_a_big_endian_writer() {
    let name = "A desktop";
    let mut expected: Vec<u8> = Vec::new();
    expected.write_u16::<BE>(0xabcd).unwrap();
    expected.write_u16::<BE>(0x00ef).unwrap();
    expected.extend_from_slice(&PixelFormat::rgb888().encode());
    expected.write_u32::<BE>(name.len() as u32).unwrap();
    expected.extend_from_slice(name.as_bytes());
    let step = handshake(HandshakeState::ClientInit, &[1], (0xabcd, 0x00ef), name);
    assert_eq!(step.send, expected);
}
