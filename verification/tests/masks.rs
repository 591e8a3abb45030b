use skrifa::bitmap::MaskData;
use usvg_text::bitmap::{bgra_to_png, mask_to_png};
use usvg_text::pixels::{bgra_to_rgba, mask_coverage, mask_to_rgba};
use usvg_text::tree::Color;

fn coverage(bpp: u8, is_packed: bool, data: &[u8], width: u32, height: u32) -> Vec<u8> {
    let mask = MaskData {
        bpp,
        is_packed,
        data,
    };
    (0..height)
        .flat_map(|y| (0..width).map(move |x| (x, y)))
        .map(|(x, y)| mask_coverage(&mask, x, y, width))
        .collect()
}

#[test]
fn mask_coverage_1bpp_byte_aligned_rows() {
    // Each row starts on a byte boundary, so the last 5 bits are padding.
    let data = [0b1010_0000, 0b0100_0000];
    assert_eq!(
        coverage(1, false, &data, 3, 2),
        [255, 0, 255, /**/ 0, 255, 0]
    );
}

#[test]
fn mask_coverage_1bpp_packed_rows() {
    // The second row continues in the same byte as the first one.
    let data = [0b1010_1000];
    assert_eq!(
        coverage(1, true, &data, 3, 2),
        [255, 0, 255, /**/ 0, 255, 0]
    );
}

#[test]
fn mask_coverage_2bpp() {
    let data = [0b11_01_00_00];
    assert_eq!(coverage(2, false, &data, 3, 1), [255, 85, 0]);
}

#[test]
fn mask_coverage_4bpp() {
    // A row of three 4bpp pixels is padded from 12 to 16 bits.
    let data = [0x0F, 0x80, 0xF0, 0x00];
    assert_eq!(
        coverage(4, false, &data, 3, 2),
        [0, 255, 136, /**/ 255, 0, 0]
    );
}

#[test]
fn mask_coverage_8bpp() {
    let data = [0, 128, 255];
    assert_eq!(coverage(8, false, &data, 3, 1), [0, 128, 255]);
}

#[test]
fn mask_coverage_out_of_bounds_is_transparent() {
    assert_eq!(coverage(8, false, &[42], 3, 1), [42, 0, 0]);
}

/// Every value of a bit depth in turn.
fn steps(bpp: u8) -> Vec<u8> {
    let mut bits: Vec<bool> = Vec::new();
    for value in 0..1u32 << bpp {
        for i in (0..bpp).rev() {
            bits.push(value >> i & 1 == 1);
        }
    }
    let data: Vec<u8> = bits
        .chunks(8)
        .map(|byte| {
            (0..8).fold(0, |sum, i| {
                sum << 1 | u8::from(byte.get(i).copied().unwrap_or(false))
            })
        })
        .collect();
    coverage(bpp, true, &data, 1 << bpp, 1)
}

#[test]
fn the_steps_of_a_bit_depth_are_even() {
    assert_eq!(steps(1), [0, 255]);
    assert_eq!(steps(2), [0, 85, 170, 255]);
    assert_eq!(
        steps(4),
        [0, 17, 34, 51, 68, 85, 102, 119, 136, 153, 170, 187, 204, 221, 238, 255]
    );
    assert_eq!(steps(8), (0..=255).collect::<Vec<u8>>());
}

#[test]
fn rows_that_end_on_a_byte_need_no_padding() {
    let data = [0x12, 0x34, 0x56, 0x78];
    assert_eq!(
        coverage(4, false, &data, 4, 2),
        coverage(4, true, &data, 4, 2)
    );
    assert_ne!(
        coverage(4, false, &data, 3, 2),
        coverage(4, true, &data, 3, 2)
    );
}

const RED: Color = Color {
    red: 200,
    green: 10,
    blue: 30,
};

#[test]
fn a_mask_is_painted_in_the_fill() {
    let mask = MaskData {
        bpp: 8,
        is_packed: false,
        data: &[0, 128, 255],
    };
    assert_eq!(
        mask_to_rgba(&mask, 3, 1, RED, 255).unwrap(),
        [200, 10, 30, 0, 200, 10, 30, 128, 200, 10, 30, 255]
    );
    // 128 * 100 / 255 is 50.19, and 255 * 100 / 255 is 100.
    assert_eq!(
        mask_to_rgba(&mask, 3, 1, RED, 100).unwrap(),
        [200, 10, 30, 0, 200, 10, 30, 50, 200, 10, 30, 100]
    );
    assert_eq!(
        mask_to_rgba(&mask, 3, 1, RED, 0).unwrap(),
        [200, 10, 30, 0, 200, 10, 30, 0, 200, 10, 30, 0]
    );
}

#[test]
fn an_invalid_bit_depth_is_no_mask() {
    for bpp in [0, 3, 5, 6, 7, 16, 32, 255] {
        let mask = MaskData {
            bpp,
            is_packed: true,
            data: &[0xff; 64],
        };
        assert_eq!(mask_to_rgba(&mask, 2, 2, RED, 255), None);
        assert_eq!(mask_to_png(&mask, 2, 2, RED, 255), None);
        assert_eq!(mask_to_png(&mask, u32::MAX, u32::MAX, RED, 255), None);
    }
}

#[test]
fn a_mask_that_cannot_be_addressed_is_no_image() {
    let mask = MaskData {
        bpp: 1,
        is_packed: true,
        data: &[],
    };
    assert_eq!(
        mask_to_rgba(&mask, u32::MAX, u32::MAX, RED, 255),
        None
    );
}

#[test]
fn premultiplication_is_undone() {
    // Opaque, half covered, transparent, and brighter than its alpha.
    let bgra = [10, 20, 30, 255, 10, 20, 30, 128, 1, 2, 3, 0, 4, 50, 90, 80];
    assert_eq!(
        bgra_to_rgba(&bgra, 2, 2).unwrap(),
        [30, 20, 10, 255, 59, 39, 19, 128, 0, 0, 0, 0, 255, 159, 12, 80]
    );
}

#[test]
fn premultiplied_data_has_to_be_complete() {
    let bgra = [9; 15];
    assert_eq!(bgra_to_rgba(&bgra, 2, 2), None);
    assert_eq!(bgra_to_png(&bgra, 2, 2), None);
    assert_eq!(bgra_to_png(&bgra, u32::MAX, 1), None);
    assert_eq!(bgra_to_png(&bgra, u32::MAX, u32::MAX), None);
    // What is left over is ignored.
    assert_eq!(bgra_to_rgba(&bgra, 3, 1).unwrap().len(), 12);
}

/// The size and the RGBA pixels of a PNG file.
fn decode(png_data: &[u8]) -> (u32, u32, Vec<u8>) {
    let mut reader = png::Decoder::new(std::io::Cursor::new(png_data))
        .read_info()
        .unwrap();
    let mut rgba = vec![0; reader.output_buffer_size().unwrap()];
    let info = reader.next_frame(&mut rgba).unwrap();
    assert_eq!(info.color_type, png::ColorType::Rgba);
    assert_eq!(info.bit_depth, png::BitDepth::Eight);
    (info.width, info.height, rgba)
}

#[test]
fn a_mask_becomes_a_png_of_its_pixels() {
    let mask = MaskData {
        bpp: 1,
        is_packed: false,
        data: &[0b1010_0000, 0b0100_0000],
    };
    let png_data = mask_to_png(&mask, 3, 2, RED, 255).unwrap();
    assert_eq!(
        decode(&png_data),
        (3, 2, mask_to_rgba(&mask, 3, 2, RED, 255).unwrap())
    );
}

#[test]
fn a_color_bitmap_becomes_a_png_of_its_pixels() {
    let bgra = [10, 20, 30, 255, 10, 20, 30, 128, 1, 2, 3, 0, 4, 50, 90, 80];
    let png_data = bgra_to_png(&bgra, 1, 4).unwrap();
    assert_eq!(
        decode(&png_data),
        (1, 4, bgra_to_rgba(&bgra, 1, 4).unwrap())
    );
}

#[test]
fn an_image_without_pixels_is_no_png() {
    let mask = MaskData {
        bpp: 8,
        is_packed: false,
        data: &[],
    };
    assert_eq!(mask_to_rgba(&mask, 0, 5, RED, 255).unwrap(), []);
    assert_eq!(mask_to_png(&mask, 0, 5, RED, 255), None);
    assert_eq!(mask_to_png(&mask, 5, 0, RED, 255), None);
    assert_eq!(mask_to_png(&mask, u32::MAX, 0, RED, 255), None);
    assert_eq!(bgra_to_png(&[], 0, 0), None);
}
