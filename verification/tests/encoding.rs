use albesjourney::chat::encoding::{translate, translate_upper};
use albesjourney::chat::ChatType;

#[test]
fn ascii_passes_through_translate() {
    assert_eq!(translate("Hello, world!"), b"Hello, world!".to_vec());
}

#[test]
fn ascii_passes_through_translate_upper() {
    assert_eq!(translate_upper("abc XYZ 123"), b"abc XYZ 123".to_vec());
}

#[test]
fn translate_keeps_case_of_extended_letters() {
    assert_eq!(translate("ÄäÖöÜüßÅåÆæØø"), vec![
        0xC4, 0xE4, 0xD6, 0xF6, 0xDC, 0xFC, 0xDF, 0xC5, 0xE5, 0xC6, 0xE6, 0xD8, 0xF8,
    ]);
}

#[test]
fn translate_upper_folds_both_cases_to_one_byte() {
    assert_eq!(translate_upper("Ää"), vec![0xC4, 0xC4]);
    assert_eq!(translate_upper("Öö"), vec![0xD6, 0xD6]);
    assert_eq!(translate_upper("Üü"), vec![0xDC, 0xDC]);
    assert_eq!(translate_upper("Åå"), vec![0xC5, 0xC5]);
    assert_eq!(translate_upper("Ææ"), vec![0xC6, 0xC6]);
    assert_eq!(translate_upper("Øø"), vec![0xD8, 0xD8]);
    assert_eq!(translate_upper("ß"), vec![0xDF]);
}

#[test]
fn translate_truncates_other_characters_to_a_byte() {
    assert_eq!(translate("é"), vec![0xE9]);
    assert_eq!(translate("\u{0141}"), vec![0x41]);
}

#[test]
fn chat_prefix_selects_type() {
    assert_eq!(ChatType::from(Some('w')), ChatType::Whisper);
    assert_eq!(ChatType::from(Some('W')), ChatType::Whisper);
    assert_eq!(ChatType::from(Some('y')), ChatType::Yell);
    assert_eq!(ChatType::from(Some('Y')), ChatType::Yell);
    assert_eq!(ChatType::from(Some('b')), ChatType::Broadcast);
    assert_eq!(ChatType::from(Some('B')), ChatType::Broadcast);
    assert_eq!(ChatType::from(Some('x')), ChatType::Normal);
    assert_eq!(ChatType::from(None), ChatType::Normal);
}

#[test]
fn chat_type_bytes_round_trip() {
    for t in [
        ChatType::Broadcast,
        ChatType::Look,
        ChatType::Private,
        ChatType::Normal,
        ChatType::Whisper,
        ChatType::Yell,
    ] {
        assert_eq!(ChatType::from_u8(t.to_u8()), Some(t));
    }
    assert_eq!(ChatType::Normal.to_u8(), 0x53);
    assert_eq!(ChatType::from_u8(0x00), None);
}
