use rosu_map::reader::encoding::DecoderError;
use rosu_map::section::metadata::Metadata;
use rosu_map::section::Section;

#[test]
fn metadata_from_bytes() {
    let bytes: &[u8] = b"[General]
Mode: 2

[Metadata]
Creator: pishifat";

    let metadata: Metadata = rosu_map::from_bytes(bytes).unwrap();
    assert_eq!(metadata.creator, "pishifat");
    assert_eq!(metadata.beatmap_id, -1);
}

#[test]
fn metadata_fields_and_comments() {
    let s = "osu file format v14
// a comment line
[Metadata]
Title:Re:Zero  
TitleUnicode: x // not a comment here
_ignored: y
Version: Insane
BeatmapID: 123
BeatmapSetID: abc
Unknown: value
[Events]
Title: elsewhere";
    let m: Metadata = rosu_map::from_str(s).unwrap();
    assert_eq!(m.title, "Re:Zero");
    assert_eq!(m.title_unicode, "x // not a comment here");
    assert_eq!(m.version, "Insane");
    assert_eq!(m.beatmap_id, 123);
    assert_eq!(m.beatmap_set_id, 0);
}

#[test]
fn utf16_content() {
    fn utf16le(s: &str) -> Vec<u8> {
        let mut v = vec![0xFF, 0xFE];
        for u in s.encode_utf16() {
            v.extend_from_slice(&u.to_le_bytes());
        }
        v
    }
    fn utf16be(s: &str) -> Vec<u8> {
        let mut v = vec![0xFE, 0xFF];
        for u in s.encode_utf16() {
            v.extend_from_slice(&u.to_be_bytes());
        }
        v
    }
    let text = "osu file format v14\r\n\r\n[Metadata]\r\nArtist: Ünïcødé 🎵\r\n";
    let m: Metadata = rosu_map::from_bytes(&utf16le(text)).unwrap();
    assert_eq!(m.artist, "Ünïcødé 🎵");
    let m: Metadata = rosu_map::from_bytes(&utf16be(text)).unwrap();
    assert_eq!(m.artist, "Ünïcødé 🎵");
}

#[test]
fn decoding_errors() {
    let bad_utf8: &[u8] = b"[Metadata]\nTitle: \xFF\xFE\xFD\n";
    assert!(matches!(
        rosu_map::from_bytes::<Metadata>(bad_utf8),
        Err(DecoderError::Utf8)
    ));
    // a lone high surrogate
    let bad_utf16: &[u8] = &[0xFF, 0xFE, 0x00, 0xD8, b'a', 0];
    assert!(matches!(
        rosu_map::from_bytes::<Metadata>(bad_utf16),
        Err(DecoderError::Utf16(0xD800))
    ));
    // an odd number of bytes in UTF-16
    let odd: &[u8] = &[0xFE, 0xFF, 0x00, b'a', 0x00];
    assert!(matches!(
        rosu_map::from_bytes::<Metadata>(odd),
        Err(DecoderError::IncorrectEncoding)
    ));
    // a newline unit cut short in UTF-16LE
    let cut: &[u8] = &[0xFF, 0xFE, b'a', 0, b'\n'];
    assert!(matches!(
        rosu_map::from_bytes::<Metadata>(cut),
        Err(DecoderError::UnexpectedEof)
    ));
}

#[test]
fn utf8_bom_is_skipped() {
    let bytes: &[u8] = b"\xEF\xBB\xBF[Metadata]\nCreator: peppy";
    let m: Metadata = rosu_map::from_bytes(bytes).unwrap();
    assert_eq!(m.creator, "peppy");
}

#[test]
fn lines_with_their_sections() {
    let bytes: &[u8] =
        b"osu file format v12\nignored\n[General]\nMode: 1\n[Metadata]\n// c\n  Title: x  \n";
    let (version, lines) = rosu_map::decode::section_lines(bytes).unwrap();
    assert_eq!(version, 12);
    assert_eq!(
        lines,
        vec![
            (Section::General, "Mode: 1".to_string()),
            (Section::Metadata, "Title: x".to_string()),
        ]
    );
    let (version, lines) = rosu_map::decode::section_lines(b"[Events]\n0,0,bg.png").unwrap();
    assert_eq!(version, 14);
    assert_eq!(lines, vec![(Section::Events, "0,0,bg.png".to_string())]);
}
