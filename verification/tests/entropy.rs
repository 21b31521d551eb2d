use bellande::data::bit_reader::BitReader;
use bellande::data::jpeg::{
    decode_coefficients, decode_huffman, natural_place, receive_and_extend,
};
use bellande::error::BellandeError;

fn table() -> Vec<u8> {
    vec![1, 0, 7, 2, 2, 9, 2, 3, 11]
}

#[test]
fn received_bits_are_extended() {
    let mut reader = BitReader::new(vec![0b1010_1000]);
    assert_eq!(receive_and_extend(&mut reader, 3), Ok(5));
    assert_eq!(receive_and_extend(&mut reader, 3), Ok(-5));
    assert_eq!(receive_and_extend(&mut reader, 0), Ok(0));
    assert_eq!(receive_and_extend(&mut reader, 1), Ok(-1));
    assert_eq!(receive_and_extend(&mut reader, 1), Ok(-1));
    assert!(matches!(receive_and_extend(&mut reader, 1), Err(BellandeError::IOError(_))));
    let mut ones = BitReader::new(vec![0xFF, 0xFF, 0xFF, 0xFF]);
    assert_eq!(receive_and_extend(&mut ones, 1), Ok(1));
    assert_eq!(receive_and_extend(&mut ones, 15), Ok(32767));
    let mut zeros = BitReader::new(vec![0, 0, 0, 0]);
    assert_eq!(receive_and_extend(&mut zeros, 15), Ok(-32767));
    assert_eq!(receive_and_extend(&mut zeros, 4), Ok(-15));
}

#[test]
fn values_of_more_than_thirty_one_bits_are_refused() {
    let mut reader = BitReader::new(vec![0xFF; 8]);
    assert_eq!(
        receive_and_extend(&mut reader, 32),
        Err(BellandeError::IOError("value longer than 31 bits".to_string()))
    );
    assert_eq!(receive_and_extend(&mut reader, 31), Ok(0x7FFF_FFFF));
    let mut low = BitReader::new(vec![0; 8]);
    assert_eq!(receive_and_extend(&mut low, 31), Ok(-0x7FFF_FFFF));
}

#[test]
fn a_short_stream_ends_a_value() {
    let mut reader = BitReader::new(vec![0xFF]);
    assert_eq!(
        receive_and_extend(&mut reader, 9),
        Err(BellandeError::IOError("failed to fill whole buffer".to_string()))
    );
    assert!(reader.read_bit().is_err());
}

#[test]
fn huffman_symbols_are_decoded() {
    let mut reader = BitReader::new(vec![0b0101_1000]);
    assert_eq!(decode_huffman(&mut reader, &table()), Ok(7));
    assert_eq!(decode_huffman(&mut reader, &table()), Ok(9));
    assert_eq!(decode_huffman(&mut reader, &table()), Ok(11));
    assert_eq!(decode_huffman(&mut reader, &table()), Ok(7));
    assert_eq!(reader.read_bits(2), Ok(0));
    assert_eq!(
        decode_huffman(&mut reader, &table()),
        Err(BellandeError::IOError("failed to fill whole buffer".to_string()))
    );
}

#[test]
fn sixteen_bits_without_a_match_are_an_invalid_code() {
    let mut reader = BitReader::new(vec![0xFF, 0xFF, 0x00]);
    assert_eq!(
        decode_huffman(&mut reader, &vec![1, 0, 7]),
        Err(BellandeError::IOError("Invalid Huffman code".to_string()))
    );
    assert_eq!(decode_huffman(&mut reader, &vec![1, 0, 7]), Ok(7));
    let mut empty = BitReader::new(vec![0x00, 0x00]);
    assert_eq!(
        decode_huffman(&mut empty, &vec![]),
        Err(BellandeError::IOError("Invalid Huffman code".to_string()))
    );
}

#[test]
fn coefficients_come_in_zigzag_order() {
    assert_eq!(natural_place(0), 0);
    assert_eq!(natural_place(1), 1);
    assert_eq!(natural_place(2), 8);
    assert_eq!(natural_place(3), 16);
    assert_eq!(natural_place(35), 56);
    assert_eq!(natural_place(63), 63);
    let mut seen = vec![false; 64];
    for k in 0..64 {
        seen[natural_place(k)] = true;
    }
    assert!(seen.iter().all(|s| *s));
}

#[test]
fn a_block_is_decoded_and_scaled() {
    let dc = vec![1, 0, 2];
    let ac = vec![1, 0, 0x00, 2, 2, 0x11, 2, 3, 0xF0];
    let q = vec![2u8; 64];
    let mut reader = BitReader::new(vec![0b0111_0100]);
    let block = decode_coefficients(&mut reader, &dc, &ac, &q).unwrap();
    let mut expected = vec![0i32; 64];
    expected[0] = 6;
    expected[8] = 2;
    assert_eq!(block, expected);
    assert_eq!(reader.read_bits(1), Ok(0));
    assert!(reader.read_bit().is_err());
}

#[test]
fn a_run_of_sixteen_zeros_is_skipped() {
    let dc = vec![1, 0, 0];
    let ac = vec![1, 0, 0x00, 2, 2, 0x11, 2, 3, 0xF0];
    let q = vec![3u8; 64];
    // DC of size zero, sixteen zeros skipped, then a run of one and the
    // value -1 at number 18, then the end of the block.
    let mut reader = BitReader::new(vec![0b0111_0000]);
    let block = decode_coefficients(&mut reader, &dc, &ac, &q).unwrap();
    let mut expected = vec![0i32; 64];
    expected[natural_place(18)] = -3;
    assert_eq!(block, expected);
}

#[test]
fn blocks_that_cannot_be_decoded_are_image_errors() {
    let dc = vec![1, 0, 2];
    let ac = vec![1, 0, 0x00, 2, 2, 0x11, 2, 3, 0xF0];
    let q = vec![2u8; 64];
    let mut short = BitReader::new(vec![]);
    assert!(matches!(
        decode_coefficients(&mut short, &dc, &ac, &q),
        Err(BellandeError::ImageError(_))
    ));
    let mut no_value = BitReader::new(vec![0b0111_0110]);
    assert!(matches!(
        decode_coefficients(&mut no_value, &dc, &ac, &q),
        Err(BellandeError::ImageError(_))
    ));
    // Four skips of sixteen lead past the block and end it; a run that
    // leads past it before a value does not.
    let zero_dc = vec![1, 0, 0];
    let mut skips = BitReader::new(vec![0b0111_1111, 0b1000_0000]);
    assert_eq!(decode_coefficients(&mut skips, &zero_dc, &ac, &q), Ok(vec![0i32; 64]));
    let far = vec![1, 0, 0xF1];
    let mut past = BitReader::new(vec![0b0010_1010, 0b1010_0000]);
    assert!(matches!(
        decode_coefficients(&mut past, &zero_dc, &far, &q),
        Err(BellandeError::ImageError(_))
    ));
    let wide = vec![1, 1, 31];
    let mut large = BitReader::new(vec![0xFF; 8]);
    assert!(matches!(
        decode_coefficients(&mut large, &wide, &ac, &q),
        Err(BellandeError::ImageError(_))
    ));
}
