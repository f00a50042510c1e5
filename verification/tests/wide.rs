use liveness::wide::{str2wsz, wsz2string};

#[test]
fn encode_ascii_appends_terminator() {
    assert_eq!(str2wsz("abc"), vec![97, 98, 99, 0]);
}

#[test]
fn encode_empty_is_just_the_terminator() {
    assert_eq!(str2wsz(""), vec![0]);
}

#[test]
fn encode_bmp_characters_as_single_units() {
    // U+00E9 and U+4E16 each fit in one code unit
    assert_eq!(str2wsz("é"), vec![0x00E9, 0]);
    assert_eq!(str2wsz("世"), vec![0x4E16, 0]);
}

#[test]
fn encode_supplementary_character_as_surrogate_pair() {
    // U+10437 encodes as the pair D801 DC37
    assert_eq!(str2wsz("𐐷"), vec![0xD801, 0xDC37, 0]);
}

#[test]
fn decode_stops_at_first_nul() {
    assert_eq!(wsz2string(&vec![72, 105, 0, 99]), "Hi");
}

#[test]
fn decode_without_nul_takes_the_whole_buffer() {
    assert_eq!(wsz2string(&vec![72, 105]), "Hi");
    assert_eq!(wsz2string(&vec![]), "");
    assert_eq!(wsz2string(&vec![0]), "");
}

#[test]
fn decode_rejoins_surrogate_pairs() {
    assert_eq!(wsz2string(&vec![0xD801, 0xDC37, 0]), "𐐷");
}

#[test]
fn decode_replaces_unpaired_surrogates() {
    assert_eq!(wsz2string(&vec![0xD800, 65, 0]), "\u{FFFD}A");
    assert_eq!(wsz2string(&vec![0xDC00, 0]), "\u{FFFD}");
    assert_eq!(wsz2string(&vec![0xD800, 0]), "\u{FFFD}");
    assert_eq!(wsz2string(&vec![0xD800]), "\u{FFFD}");
}

#[test]
fn decode_inverts_encode() {
    let text = "héllo 世 𐐷 watchdog";
    assert_eq!(wsz2string(&str2wsz(text)), text);
}
