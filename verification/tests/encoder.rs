use stegs::encoder::encode;

#[test]
fn should_encode_string() {
    assert_eq!(
        encode("abcdefghijklmnopqrstuvwxyz"),
        vec![
            0, 1, 2, 3, 4, 5, 6, 7, 8, 9, 10, 11, 12, 13, 14, 15, 16, 17, 18, 19, 20, 21, 22, 23,
            24, 25
        ]
    )
}

use stegs::encoder::char_list;

#[test]
fn encode_maps_each_symbol_to_its_position() {
    let list = char_list();
    assert_eq!(list.len(), 56);
    let text: String = list.iter().collect();
    let codes = encode(&text);
    let expected: Vec<i8> = (0..56).collect();
    assert_eq!(codes, expected);
}

#[test]
fn encode_decodes_back_through_the_alphabet() {
    let list = char_list();
    let text = "ó, (ù) [à] é/è: 0.9 *_+-;\\";
    for (c, code) in text.chars().zip(encode(text)) {
        assert_eq!(list[code as usize], c);
    }
}

#[test]
fn encode_unknown_characters_as_zero() {
    assert_eq!(encode("A!é?💀"), vec![0, 0, 41, 0, 0]);
    assert_eq!(encode(""), Vec::<i8>::new());
}

#[test]
fn encode_space_and_digits() {
    assert_eq!(encode("a z"), vec![0, 26, 25]);
    assert_eq!(encode("0123456789"), vec![29, 30, 31, 32, 33, 34, 35, 36, 37, 38]);
}
