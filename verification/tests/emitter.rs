use asm16::emitter::{emit_image, read_image};
use asm16::encoder::compile;
use asm16::tokenizer::processFile;

fn decode(bytes: &[u8; 64]) -> [u16; 32] {
    let mut words = [0u16; 32];
    for (address, word) in words.iter_mut().enumerate() {
        *word = u16::from_be_bytes([bytes[2 * address], bytes[2 * address + 1]]);
    }
    words
}

#[test]
fn words_are_written_high_byte_first() {
    let mut image = [0u16; 32];
    image[0] = 0x23C8;
    image[1] = 0x00FF;
    image[2] = 0xFF00;
    image[31] = 0xABCD;
    let bytes = emit_image(&image);
    assert_eq!(bytes.len(), 64);
    assert_eq!(&bytes[0..6], &[0x23, 0xC8, 0x00, 0xFF, 0xFF, 0x00]);
    assert_eq!(&bytes[6..62], &[0u8; 56]);
    assert_eq!(&bytes[62..64], &[0xAB, 0xCD]);
}

#[test]
fn empty_image_is_sixty_four_zero_bytes() {
    assert_eq!(emit_image(&[0u16; 32]), [0u8; 64]);
}

#[test]
fn emitted_bytes_agree_with_the_standard_library() {
    let mut image = [0u16; 32];
    for (address, word) in image.iter_mut().enumerate() {
        *word = (address as u16).wrapping_mul(0x0F37).wrapping_add(0x8001);
    }
    let bytes = emit_image(&image);
    for address in 0..32 {
        assert_eq!([bytes[2 * address], bytes[2 * address + 1]], image[address].to_be_bytes());
    }
}

#[test]
fn reading_back_an_assembled_program_gives_its_words() {
    let text = "LDI R1 5\nLDI R2 1\nloop:\nSUB R1 R2\nJZ R1 end\nJ loop\nend:\nOUT R1 0\n";
    let image = compile(processFile(text.to_string())).ok().unwrap();
    let bytes = emit_image(&image);
    assert_eq!(decode(&bytes), image);
    assert_eq!(read_image(&bytes), image);
    assert_eq!(&bytes[0..12], &[0x21, 0x05, 0x22, 0x01, 0x31, 0x20, 0xD1, 0x05, 0xF0, 0x02, 0xC1, 0x00]);
}

#[test]
fn reading_back_a_full_program_gives_its_words() {
    let mut text = String::new();
    for n in 0..32 {
        text.push_str(&format!("LDI R{} {}\n", n % 16, 7 * n));
    }
    let image = compile(processFile(text)).ok().unwrap();
    assert_eq!(image[31], 0x2F00 | 217);
    assert_eq!(decode(&emit_image(&image)), image);
    assert_eq!(read_image(&emit_image(&image)), image);
}

#[test]
fn reading_back_any_words_gives_them_again() {
    let mut image = [0u16; 32];
    for (address, word) in image.iter_mut().enumerate() {
        *word = (address as u16).wrapping_mul(0x9E37).wrapping_add(0x1234);
    }
    image[0] = 0xFFFF;
    image[1] = 0x0000;
    image[2] = 0x0100;
    image[3] = 0x00FF;
    assert_eq!(read_image(&emit_image(&image)), image);
}

#[test]
fn read_image_takes_the_high_byte_first() {
    let mut bytes = [0u8; 64];
    bytes[0] = 0x12;
    bytes[1] = 0x34;
    bytes[63] = 0x01;
    let image = read_image(&bytes);
    assert_eq!(image[0], 0x1234);
    assert_eq!(image[31], 0x0001);
    assert_eq!(image[1], 0);
}
