use bellande::data::image_folder::{place_block, RGBPixel};
use bellande::data::segments::{code_table, find_table, read_segments};
use bellande::error::BellandeError;

fn image_error(text: &str) -> BellandeError {
    BellandeError::ImageError(text.to_string())
}

fn file() -> Vec<u8> {
    let mut bytes = vec![0xFF, 0xD8];
    bytes.extend([0xFF, 0xE0, 0x00, 0x04, 0xAA, 0xBB]);
    bytes.extend([0xFF, 0xDB, 0x00, 0x43, 0x01]);
    bytes.extend((0..64u8).map(|v| v + 1));
    bytes.extend([0xFF, 0xC0, 0x00, 0x0B, 0x08, 0x00, 0x10, 0x01, 0x20, 0x01, 0x01, 0x11, 0x00]);
    bytes.extend([0xFF, 0xC4, 0x00, 0x15, 0x10, 1, 1]);
    bytes.extend([0u8; 14]);
    bytes.extend([5, 6]);
    bytes.extend([0xFF, 0xDA, 0x00, 0x08, 0x01, 0x01, 0x00, 0x00, 0x3F, 0x00]);
    bytes.extend([0x12, 0x34]);
    bytes
}

#[test]
fn segments_make_a_plan() {
    let bytes = file();
    let plan = read_segments(&bytes).unwrap();
    assert_eq!(plan.height, 16);
    assert_eq!(plan.width, 288);
    assert_eq!(plan.components, 1);
    assert_eq!(plan.quantization.len(), 1);
    assert_eq!(plan.quantization[0].len(), 65);
    assert_eq!(plan.quantization[0][0], 0x01);
    assert_eq!(plan.quantization[0][64], 64);
    assert_eq!(plan.huffman, vec![vec![0x10, 1, 1, 0, 0, 0, 0, 0, 0, 0, 0, 0, 0, 0, 0, 0, 0, 5, 6]]);
    assert_eq!(plan.scan, bytes.len() - 2);
    assert_eq!(&bytes[plan.scan..], &[0x12, 0x34]);
}

#[test]
fn files_that_are_no_jpeg_are_refused() {
    assert_eq!(read_segments(&vec![]).unwrap_err(), image_error("Not a valid JPEG file"));
    assert_eq!(read_segments(&vec![0xFF]).unwrap_err(), image_error("Not a valid JPEG file"));
    assert_eq!(
        read_segments(&vec![0x89, 0x50, 0x4E, 0x47]).unwrap_err(),
        image_error("Not a valid JPEG file")
    );
}

#[test]
fn faults_of_segments_are_reported() {
    assert_eq!(read_segments(&vec![0xFF, 0xD8]).unwrap_err(), image_error("Failed to read marker"));
    assert_eq!(
        read_segments(&vec![0xFF, 0xD8, 0xFF]).unwrap_err(),
        image_error("Failed to read marker")
    );
    assert_eq!(
        read_segments(&vec![0xFF, 0xD8, 0x12, 0x34]).unwrap_err(),
        image_error("Invalid marker")
    );
    assert_eq!(
        read_segments(&vec![0xFF, 0xD8, 0xFF, 0xD9]).unwrap_err(),
        image_error("Failed to decode JPEG")
    );
    assert_eq!(
        read_segments(&vec![0xFF, 0xD8, 0xFF, 0xE0, 0x00]).unwrap_err(),
        image_error("Segment cut short")
    );
    assert_eq!(
        read_segments(&vec![0xFF, 0xD8, 0xFF, 0xE0, 0x00, 0x01]).unwrap_err(),
        image_error("Segment cut short")
    );
    assert_eq!(
        read_segments(&vec![0xFF, 0xD8, 0xFF, 0xE0, 0x00, 0x05, 1, 2]).unwrap_err(),
        image_error("Segment cut short")
    );
    let twelve = vec![0xFF, 0xD8, 0xFF, 0xC0, 0x00, 0x08, 12, 0, 1, 0, 1, 0];
    assert_eq!(read_segments(&twelve).unwrap_err(), image_error("Only 8-bit precision supported"));
    let short_frame = vec![0xFF, 0xD8, 0xFF, 0xC0, 0x00, 0x0B, 8, 0, 1, 0, 1, 1, 1];
    assert_eq!(read_segments(&short_frame).unwrap_err(), image_error("Segment cut short"));
    let short_table = vec![0xFF, 0xD8, 0xFF, 0xDB, 0x00, 0x04, 0x00, 1];
    assert_eq!(read_segments(&short_table).unwrap_err(), image_error("Table cut short"));
    let mut short_codes = vec![0xFF, 0xD8, 0xFF, 0xC4, 0x00, 0x13, 0x00, 2];
    short_codes.extend([0u8; 15]);
    short_codes.push(9);
    assert_eq!(read_segments(&short_codes).unwrap_err(), image_error("Table cut short"));
    let mut ends = file();
    let at = ends.len() - 12;
    ends[at + 1] = 0xD9;
    assert_eq!(read_segments(&ends).unwrap_err(), image_error("Failed to decode JPEG"));
}

#[test]
fn later_tables_replace_earlier_ones() {
    let tables = vec![vec![0x00, 1], vec![0x11, 2], vec![0x10, 3], vec![], vec![0x01, 4], vec![0x10, 5]];
    assert_eq!(find_table(&tables, None, 0), Some(5));
    assert_eq!(find_table(&tables, None, 1), Some(4));
    assert_eq!(find_table(&tables, Some(1), 0), Some(5));
    assert_eq!(find_table(&tables, Some(0), 0), Some(0));
    assert_eq!(find_table(&tables, Some(1), 1), Some(1));
    assert_eq!(find_table(&tables, Some(0), 1), Some(4));
    assert_eq!(find_table(&tables, Some(2), 0), None);
    assert_eq!(find_table(&tables, None, 2), None);
    assert_eq!(find_table(&vec![], None, 0), None);
}

#[test]
fn codes_count_up_within_a_length_and_double_between_lengths() {
    let mut table = vec![0x00, 0, 2, 3];
    table.extend([0u8; 13]);
    table.extend([10, 11, 12, 13, 14]);
    assert_eq!(
        code_table(&table),
        Ok(vec![2, 0, 10, 2, 1, 11, 3, 4, 12, 3, 5, 13, 3, 6, 14])
    );
    let mut none = vec![0x00];
    none.extend([0u8; 16]);
    assert_eq!(code_table(&none), Ok(vec![]));
    let mut long = vec![0x00];
    long.extend([0u8; 8]);
    long.push(1);
    long.extend([0u8; 7]);
    long.push(42);
    assert_eq!(code_table(&long), Ok(vec![9, 0, 42]));
    let mut wraps = vec![0x00, 1];
    wraps.extend([0u8; 7]);
    wraps.push(1);
    wraps.extend([0u8; 7]);
    wraps.extend([7, 8]);
    assert_eq!(code_table(&wraps), Ok(vec![1, 0, 7, 9, 0, 8]));
    assert_eq!(code_table(&vec![0x00; 16]), Err(image_error("Table cut short")));
    table.pop();
    assert_eq!(code_table(&table), Err(image_error("Table cut short")));
}

fn reds(pixels: &[RGBPixel]) -> Vec<u8> {
    pixels.iter().map(|p| p.r).collect()
}

#[test]
fn blocks_are_placed_inside_the_image() {
    let samples: Vec<u8> = (0..64u8).collect();
    let mut pixels = vec![RGBPixel { r: 200, g: 201, b: 202 }; 10 * 3];
    place_block(&mut pixels, 10, 3, 0, 0, &samples);
    assert_eq!(&reds(&pixels)[0..10], &[0, 1, 2, 3, 4, 5, 6, 7, 200, 200]);
    assert_eq!(&reds(&pixels)[10..20], &[8, 9, 10, 11, 12, 13, 14, 15, 200, 200]);
    assert_eq!(&reds(&pixels)[20..30], &[16, 17, 18, 19, 20, 21, 22, 23, 200, 200]);
    assert_eq!((pixels[0].g, pixels[0].b), (0, 0));
    assert_eq!((pixels[9].g, pixels[9].b), (201, 202));
    place_block(&mut pixels, 10, 3, 8, 1, &samples);
    assert_eq!(&reds(&pixels)[0..10], &[0, 1, 2, 3, 4, 5, 6, 7, 200, 200]);
    assert_eq!(&reds(&pixels)[10..20], &[8, 9, 10, 11, 12, 13, 14, 15, 0, 1]);
    assert_eq!(&reds(&pixels)[20..30], &[16, 17, 18, 19, 20, 21, 22, 23, 8, 9]);
    let before = reds(&pixels);
    place_block(&mut pixels, 10, 3, 10, 0, &samples);
    place_block(&mut pixels, 10, 3, 0, 3, &samples);
    place_block(&mut pixels, 10, 3, usize::MAX, usize::MAX, &samples);
    assert_eq!(reds(&pixels), before);
}
