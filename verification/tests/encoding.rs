use c2pa_wasm::base64::decode_base64;
use c2pa_wasm::pem::{find_block, find_blocks, has_begin_mark, Block};
use c2pa_wasm::text::{find, is_space_byte, matches_at, strip};
use c2pa_wasm::utils::byte_length;

#[test]
fn base64_decodes_whole_groups() {
    assert_eq!(decode_base64(b"TWFu"), Some(b"Man".to_vec()));
    assert_eq!(decode_base64(b"AQID"), Some(vec![1, 2, 3]));
    assert_eq!(decode_base64(b"+/+/"), Some(vec![0xfb, 0xff, 0xbf]));
    assert_eq!(decode_base64(b"aGVsbG8="), Some(b"hello".to_vec()));
    assert_eq!(
        decode_base64(b"AAECAwQFBgcICQoLDA0ODxAREhMUFRYXGBkaGxwdHh8gISIjJCUmJygpKissLS4v"),
        Some((0u8..48).collect::<Vec<u8>>())
    );
}

#[test]
fn base64_decodes_padded_groups() {
    assert_eq!(decode_base64(b"TQ=="), Some(b"M".to_vec()));
    assert_eq!(decode_base64(b"TWE="), Some(b"Ma".to_vec()));
    assert_eq!(decode_base64(b"/w=="), Some(vec![0xff]));
    assert_eq!(decode_base64(b"//4="), Some(vec![0xff, 0xfe]));
    assert_eq!(decode_base64(b"MIIBCg=="), Some(vec![0x30, 0x82, 0x01, 0x0a]));
    assert_eq!(decode_base64(b"3q2+7wE="), Some(vec![0xde, 0xad, 0xbe, 0xef, 0x01]));
}

#[test]
fn base64_of_nothing_is_nothing() {
    assert_eq!(decode_base64(b""), Some(Vec::new()));
}

#[test]
fn base64_refuses_what_is_not_well_formed() {
    // A length that is no multiple of four.
    assert_eq!(decode_base64(b"T"), None);
    assert_eq!(decode_base64(b"TQ="), None);
    assert_eq!(decode_base64(b"TWFuT"), None);
    // Characters outside the alphabet.
    assert_eq!(decode_base64(b"TW-u"), None);
    assert_eq!(decode_base64(b"TW_u"), None);
    assert_eq!(decode_base64(b"TW\nu"), None);
    assert_eq!(decode_base64(b"not-valid-base64!!"), None);
    assert_eq!(decode_base64(b"!!!!TWFu"), None);
    // Padding where none may stand.
    assert_eq!(decode_base64(b"T==="), None);
    assert_eq!(decode_base64(b"===="), None);
    assert_eq!(decode_base64(b"=WFu"), None);
    assert_eq!(decode_base64(b"TQ=u"), None);
    assert_eq!(decode_base64(b"TQ==TWFu"), None);
    // Bits that belong to no byte and are not zero.
    assert_eq!(decode_base64(b"TR=="), None);
    assert_eq!(decode_base64(b"TWF="), None);
}

#[test]
fn white_space_is_five_characters() {
    for b in 0u8..=255 {
        let expected = b == b' ' || b == b'\t' || b == b'\n' || b == b'\r' || b == 0x0c;
        assert_eq!(is_space_byte(b), expected);
    }
}

#[test]
fn strip_removes_white_space_only() {
    assert_eq!(strip(b" a\tb\nc\r\x0cd "), b"abcd".to_vec());
    assert_eq!(strip(b"abcd"), b"abcd".to_vec());
    assert_eq!(strip(b" \n "), Vec::<u8>::new());
    assert_eq!(strip(b""), Vec::<u8>::new());
    assert_eq!(strip(b"a\x0bb"), b"a\x0bb".to_vec());
}

#[test]
fn find_gives_the_first_position() {
    assert_eq!(find(b"abcabc", b"bc", 0), Some(1));
    assert_eq!(find(b"abcabc", b"bc", 1), Some(1));
    assert_eq!(find(b"abcabc", b"bc", 2), Some(4));
    assert_eq!(find(b"abcabc", b"bc", 5), None);
    assert_eq!(find(b"abcabc", b"bc", 100), None);
    assert_eq!(find(b"abc", b"abcd", 0), None);
    assert_eq!(find(b"abc", b"", 3), Some(3));
    assert_eq!(find(b"abc", b"", 4), None);
    assert!(matches_at(b"abc", b"bc", 1));
    assert!(!matches_at(b"abc", b"bc", 2));
    assert!(!matches_at(b"abc", b"bc", usize::MAX));
}

#[test]
fn pem_block_is_found_with_its_bounds() {
    let text = b"-----BEGIN X-----\nAQID\n-----END X-----\n";
    assert!(has_begin_mark(text));
    assert_eq!(find_block(text, 0), Some(Block { body_start: 17, body_end: 23, resume: 38 }));
    assert_eq!(find_block(text, 1), None);
    assert_eq!(find_blocks(text), vec![Block { body_start: 17, body_end: 23, resume: 38 }]);
}

#[test]
fn pem_blocks_are_found_in_order() {
    let text = b"junk-----BEGIN A-----QUJD-----END A-----between-----BEGIN B-----REVG-----END B-----";
    let blocks = find_blocks(text);
    assert_eq!(blocks.len(), 2);
    assert_eq!(&text[blocks[0].body_start..blocks[0].body_end], b"QUJD");
    assert_eq!(&text[blocks[1].body_start..blocks[1].body_end], b"REVG");
}

#[test]
fn pem_block_that_is_not_complete_is_not_found() {
    assert!(!has_begin_mark(b"AQID"));
    assert!(!has_begin_mark(b"----BEGIN"));
    assert_eq!(find_blocks(b"AQID"), Vec::<Block>::new());
    assert_eq!(find_blocks(b"-----BEGIN X-----\nAQID\n"), Vec::<Block>::new());
    assert_eq!(find_blocks(b"-----BEGIN X-----\nAQID\n-----END X"), Vec::<Block>::new());
    assert_eq!(find_blocks(b"-----BEGIN X\nAQID\n-----END X-----"), Vec::<Block>::new());
    assert_eq!(find_blocks(b"-----END X-----\nAQID\n-----BEGIN X-----"), Vec::<Block>::new());
}

#[test]
fn host_buffers_hold_up_to_a_limit() {
    assert_eq!(byte_length(0), Some(0));
    assert_eq!(byte_length(4), Some(4));
    assert_eq!(byte_length(u32::MAX as usize), Some(u32::MAX));
    if usize::BITS > 32 {
        assert_eq!(byte_length(u32::MAX as usize + 1), None);
        assert_eq!(byte_length(usize::MAX), None);
    }
}
